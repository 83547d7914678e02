use vstd::prelude::*;
use crate::components::{MonsterDetails, Position, PositionView};
use crate::consts::TICK_SPAWN_CHANCE_PERCENTAGE;
use crate::random::{choose_spawn_point, random_between};
use crate::keyed::{
    collect_named, distinct_names, find_name, insert_named, keyed_view, lemma_keyed_dom, lemma_keyed_lookup,
    lemma_keyed_update, lemma_named_by_file_origin, named_by_file,
};

verus! {

/// A spawn point on a map.
#[derive(Clone, Copy, Debug, PartialEq, Eq, Structural)]
pub struct PositionWithoutMap {
    pub x: u32,
    pub y: u32,
}

/// The spawn points of one type of monster on a map.
#[derive(Debug)]
pub struct MonsterSpawnPositions {
    pub monster_type: String,
    pub spawn_positions: Vec<PositionWithoutMap>,
}

/// The monster spawn points of one map.
#[derive(Debug)]
pub struct Spawns {
    pub monsters: Vec<MonsterSpawnPositions>,
}

/// Monster counts: per map name, per monster type, a number of monsters.
/// Each list holds a name at most once.
pub type AllSpawnCounts = Vec<(String, Vec<(String, u32)>)>;

/// Whether no map and no monster type within a map occurs twice.
pub open spec fn counts_wf(counts: Seq<(String, Vec<(String, u32)>)>) -> bool {
    distinct_names(counts) && forall|i: int| 0 <= i < counts.len() ==> distinct_names(#[trigger] counts[i].1@)
}

/// The counts as a map from map names to maps from monster types to counts.
pub open spec fn all_counts_view(counts: Seq<(String, Vec<(String, u32)>)>) -> Map<Seq<char>, Map<Seq<char>, u32>> {
    keyed_view(counts).map_values(|inner: Vec<(String, u32)>| keyed_view(inner@))
}

/// How many spawn points each monster type has on a map; when a type is
/// listed twice, its later list counts.
pub open spec fn spawn_counts_of(monsters: Seq<MonsterSpawnPositions>) -> Map<Seq<char>, u32>
    decreases monsters.len(),
{
    if monsters.len() == 0 {
        Map::empty()
    } else {
        spawn_counts_of(monsters.drop_last()).insert(
            monsters.last().monster_type@,
            monsters.last().spawn_positions@.len() as u32,
        )
    }
}

/// For every map, how many spawn points each monster type has there.
pub open spec fn default_counts_view(all_spawns: Seq<(String, Spawns)>) -> Map<Seq<char>, Map<Seq<char>, u32>> {
    keyed_view(all_spawns).map_values(|spawns: Spawns| spawn_counts_of(spawns.monsters@))
}

proof fn lemma_all_counts_push(counts: Seq<(String, Vec<(String, u32)>)>, entry: (String, Vec<(String, u32)>))
    ensures
        all_counts_view(counts.push(entry)) == all_counts_view(counts).insert(entry.0@, keyed_view(entry.1@)),
{
    assert(counts.push(entry).drop_last() == counts);
    assert(all_counts_view(counts.push(entry)) =~= all_counts_view(counts).insert(entry.0@, keyed_view(entry.1@)));
}

proof fn lemma_default_counts_push(all_spawns: Seq<(String, Spawns)>, entry: (String, Spawns))
    ensures
        default_counts_view(all_spawns.push(entry)) == default_counts_view(all_spawns).insert(entry.0@, spawn_counts_of(entry.1.monsters@)),
{
    assert(all_spawns.push(entry).drop_last() == all_spawns);
    assert(default_counts_view(all_spawns.push(entry)) =~= default_counts_view(all_spawns).insert(entry.0@, spawn_counts_of(entry.1.monsters@)));
}

/// Whether no monster type has more spawn points on a map than a `u32` counts.
pub open spec fn spawn_lists_countable(all_spawns: Seq<(String, Spawns)>) -> bool {
    forall|i: int, j: int|
        0 <= i < all_spawns.len() && 0 <= j < all_spawns[i].1.monsters@.len()
            ==> #[trigger] all_spawns[i].1.monsters@[j].spawn_positions@.len() <= u32::MAX
}

/// For every map, how many spawn points each monster type has there: the
/// number of monsters of that type the map holds when fully populated.
pub fn get_default_spawn_counts(all_spawns_map: &Vec<(String, Spawns)>) -> (counts: AllSpawnCounts)
    requires
        distinct_names(all_spawns_map@),
        spawn_lists_countable(all_spawns_map@),
    ensures
        counts_wf(counts@),
        all_counts_view(counts@) == default_counts_view(all_spawns_map@),
{
    let mut default_spawn_counts: AllSpawnCounts = Vec::new();
    let n = all_spawns_map.len();
    let mut i: usize = 0;
    while i < n
        invariant
            0 <= i <= n,
            n == all_spawns_map@.len(),
            distinct_names(all_spawns_map@),
            spawn_lists_countable(all_spawns_map@),
            default_spawn_counts@.len() == i,
            forall|k: int| 0 <= k < i ==> #[trigger] default_spawn_counts@[k].0@ == all_spawns_map@[k].0@,
            counts_wf(default_spawn_counts@),
            all_counts_view(default_spawn_counts@) == default_counts_view(all_spawns_map@.take(i as int)),
        decreases n - i,
    {
        let map = &all_spawns_map[i].0;
        let spawns = &all_spawns_map[i].1;
        let mut map_spawn_counts: Vec<(String, u32)> = Vec::new();
        let m = spawns.monsters.len();
        let mut j: usize = 0;
        while j < m
            invariant
                0 <= j <= m,
                m == spawns.monsters@.len(),
                spawns == all_spawns_map@[i as int].1,
                i < all_spawns_map@.len(),
                spawn_lists_countable(all_spawns_map@),
                distinct_names(map_spawn_counts@),
                keyed_view(map_spawn_counts@) == spawn_counts_of(spawns.monsters@.take(j as int)),
            decreases m - j,
        {
            let monster = &spawns.monsters[j];
            assert(spawns.monsters@[j as int].spawn_positions@.len() <= u32::MAX);
            let monster_spawn_count = monster.spawn_positions.len() as u32;
            insert_named(&mut map_spawn_counts, monster.monster_type.clone(), monster_spawn_count);
            assert(spawns.monsters@.take(j + 1).drop_last() == spawns.monsters@.take(j as int));
            j = j + 1;
        }
        assert(spawns.monsters@.take(m as int) == spawns.monsters@);
        let ghost before = default_spawn_counts@;
        default_spawn_counts.push((map.clone(), map_spawn_counts));
        proof {
            assert(all_spawns_map@.take(i + 1).drop_last() == all_spawns_map@.take(i as int));
            assert(default_spawn_counts@.drop_last() == before);
            assert forall|a: int, b: int|
                0 <= a < default_spawn_counts@.len() && 0 <= b < default_spawn_counts@.len() && a != b
                    implies #[trigger] default_spawn_counts@[a].0@ != #[trigger] default_spawn_counts@[b].0@ by {
                assert(default_spawn_counts@[a].0@ == all_spawns_map@[a].0@);
                assert(default_spawn_counts@[b].0@ == all_spawns_map@[b].0@);
            }
            assert forall|a: int| 0 <= a < default_spawn_counts@.len() implies distinct_names(#[trigger] default_spawn_counts@[a].1@) by {
                if a < before.len() {
                    assert(default_spawn_counts@[a] == before[a]);
                }
            }
            assert(all_spawns_map@.take(i + 1) == all_spawns_map@.take(i as int).push(all_spawns_map@[i as int]));
            lemma_default_counts_push(all_spawns_map@.take(i as int), all_spawns_map@[i as int]);
            assert(default_spawn_counts@ == before.push(default_spawn_counts@.last()));
            lemma_all_counts_push(before, default_spawn_counts@.last());
            assert(keyed_view(default_spawn_counts@.last().1@) == spawn_counts_of(all_spawns_map@[i as int].1.monsters@));
            assert(all_counts_view(default_spawn_counts@) =~= default_counts_view(all_spawns_map@.take(i + 1)));
        }
        i = i + 1;
    }
    assert(all_spawns_map@.take(n as int) == all_spawns_map@);
    default_spawn_counts
}

/// The count for a monster type on a map, zero when there is none.
pub open spec fn count_in(counts: Map<Seq<char>, Map<Seq<char>, u32>>, map: Seq<char>, monster: Seq<char>) -> u32 {
    if counts.contains_key(map) && counts[map].contains_key(monster) {
        counts[map][monster]
    } else {
        0
    }
}

/// The count for a monster type on a map, zero when there is none.
pub fn lookup_count(counts: &AllSpawnCounts, map: &String, monster_type: &String) -> (count: u32)
    requires
        counts_wf(counts@),
    ensures
        count == count_in(all_counts_view(counts@), map@, monster_type@),
{
    match find_name(counts, map) {
        Some(k) => {
            proof {
                lemma_keyed_lookup(counts@, k as int);
            }
            let inner = &counts[k].1;
            assert(distinct_names(counts@[k as int].1@));
            match find_name(inner, monster_type) {
                Some(j) => {
                    proof {
                        lemma_keyed_lookup(inner@, j as int);
                    }
                    inner[j].1
                },
                None => {
                    proof {
                        lemma_keyed_dom(inner@, monster_type@);
                    }
                    0
                },
            }
        },
        None => {
            proof {
                lemma_keyed_dom(counts@, map@);
            }
            0
        },
    }
}

/// The counts after one more monster of type `monster_type` was found alive
/// on map `map`.
pub open spec fn counted_one_more(counts: Map<Seq<char>, Map<Seq<char>, u32>>, map: Seq<char>, monster: Seq<char>) -> Map<Seq<char>, Map<Seq<char>, u32>> {
    let inner = if counts.contains_key(map) { counts[map] } else { Map::empty() };
    counts.insert(map, inner.insert(monster, (count_in(counts, map, monster) + 1) as u32))
}

/// Counts one more living monster of the given monster's type on the map of
/// the given position.
pub fn count_alive_monsters(current_monsters_count: AllSpawnCounts, monster: &MonsterDetails, position: &Position) -> (counts: AllSpawnCounts)
    requires
        counts_wf(current_monsters_count@),
        count_in(all_counts_view(current_monsters_count@), position.current_map@, monster.monster_type@) < u32::MAX,
    ensures
        counts_wf(counts@),
        all_counts_view(counts@) == counted_one_more(all_counts_view(current_monsters_count@), position.current_map@, monster.monster_type@),
{
    let mut current_monsters_count = current_monsters_count;
    let ghost old_counts = current_monsters_count@;
    let ghost map = position.current_map@;
    let ghost monster_type = monster.monster_type@;
    match find_name(&current_monsters_count, &position.current_map) {
        Some(k) => {
            proof {
                lemma_keyed_lookup(old_counts, k as int);
            }
            let mut entry: (String, Vec<(String, u32)>) = (String::new(), Vec::new());
            current_monsters_count.set_and_swap(k, &mut entry);
            let mut map_monster_count = entry.1;
            let ghost inner_before = map_monster_count@;
            assert(inner_before == old_counts[k as int].1@);
            assert(distinct_names(inner_before));
            let count = match find_name(&map_monster_count, &monster.monster_type) {
                Some(j) => {
                    proof {
                        lemma_keyed_lookup(inner_before, j as int);
                    }
                    map_monster_count[j].1
                },
                None => {
                    proof {
                        lemma_keyed_dom(inner_before, monster_type);
                    }
                    0
                },
            };
            assert(count == count_in(all_counts_view(old_counts), map, monster_type));
            insert_named(&mut map_monster_count, monster.monster_type.clone(), count + 1);
            let ghost swapped = current_monsters_count@;
            let map_name = position.current_map.clone();
            current_monsters_count.set(k, (map_name, map_monster_count));
            proof {
                lemma_keyed_update(old_counts, k as int, map_name, map_monster_count);
                assert(current_monsters_count@ == old_counts.update(k as int, (map_name, map_monster_count)));
                assert forall|i: int| 0 <= i < current_monsters_count@.len() implies distinct_names(#[trigger] current_monsters_count@[i].1@) by {
                    if i != k {
                        assert(current_monsters_count@[i] == old_counts[i]);
                    }
                }
                assert(all_counts_view(current_monsters_count@) =~= counted_one_more(all_counts_view(old_counts), map, monster_type));
            }
            current_monsters_count
        },
        None => {
            proof {
                lemma_keyed_dom(old_counts, map);
            }
            let mut monster_count: Vec<(String, u32)> = Vec::new();
            monster_count.push((monster.monster_type.clone(), 1));
            let ghost before = current_monsters_count@;
            current_monsters_count.push((position.current_map.clone(), monster_count));
            proof {
                assert(keyed_view(monster_count@) =~= Map::<Seq<char>, u32>::empty().insert(monster_type, 1)) by {
                    assert(monster_count@.drop_last() =~= Seq::<(String, u32)>::empty());
                    assert(keyed_view(monster_count@.drop_last()) == Map::<Seq<char>, u32>::empty());
                    assert(monster_count@.last().0@ == monster_type);
                }
                assert(current_monsters_count@ == before.push(current_monsters_count@.last()));
                lemma_all_counts_push(before, current_monsters_count@.last());
                assert forall|a: int, b: int|
                    0 <= a < current_monsters_count@.len() && 0 <= b < current_monsters_count@.len() && a != b
                        implies #[trigger] current_monsters_count@[a].0@ != #[trigger] current_monsters_count@[b].0@ by {
                    if a < before.len() {
                        assert(current_monsters_count@[a] == before[a]);
                    }
                    if b < before.len() {
                        assert(current_monsters_count@[b] == before[b]);
                    }
                }
                assert forall|i: int| 0 <= i < current_monsters_count@.len() implies distinct_names(#[trigger] current_monsters_count@[i].1@) by {
                    if i < before.len() {
                        assert(current_monsters_count@[i] == before[i]);
                    } else {
                        assert(current_monsters_count@[i].1@ == monster_count@);
                    }
                }
                assert(all_counts_view(current_monsters_count@) =~= counted_one_more(all_counts_view(old_counts), map, monster_type));
            }
            current_monsters_count
        },
    }
}

/// How many monsters of each type are missing from a map: its full
/// population less the living ones.
pub open spec fn shortfall(current: Map<Seq<char>, Map<Seq<char>, u32>>, map: Seq<char>, full: Map<Seq<char>, u32>) -> Map<Seq<char>, u32> {
    full.map_entries(|monster: Seq<char>, count: u32| (count - count_in(current, map, monster)) as u32)
}

/// For every map and monster type of the full populations, how many
/// monsters are missing.
pub open spec fn needing_respawn(current: Map<Seq<char>, Map<Seq<char>, u32>>, default: Map<Seq<char>, Map<Seq<char>, u32>>) -> Map<Seq<char>, Map<Seq<char>, u32>> {
    default.map_entries(|map: Seq<char>, full: Map<Seq<char>, u32>| shortfall(current, map, full))
}

/// Whether no map holds more living monsters of a type than its full
/// population of that type.
pub open spec fn within_full_population(current: Map<Seq<char>, Map<Seq<char>, u32>>, default: Map<Seq<char>, Map<Seq<char>, u32>>) -> bool {
    forall|map: Seq<char>, monster: Seq<char>|
        default.contains_key(map) && #[trigger] default[map].contains_key(monster) ==> count_in(current, map, monster) <= default[map][monster]
}

proof fn lemma_shortfall_push(current: Map<Seq<char>, Map<Seq<char>, u32>>, map: Seq<char>, entries: Seq<(String, u32)>, entry: (String, u32))
    ensures
        shortfall(current, map, keyed_view(entries.push(entry))) == shortfall(current, map, keyed_view(entries)).insert(entry.0@, (entry.1 - count_in(current, map, entry.0@)) as u32),
{
    assert(entries.push(entry).drop_last() == entries);
    assert(shortfall(current, map, keyed_view(entries.push(entry))) =~= shortfall(current, map, keyed_view(entries)).insert(entry.0@, (entry.1 - count_in(current, map, entry.0@)) as u32));
}

proof fn lemma_needing_push(current: Map<Seq<char>, Map<Seq<char>, u32>>, defaults: Seq<(String, Vec<(String, u32)>)>, entry: (String, Vec<(String, u32)>))
    ensures
        needing_respawn(current, all_counts_view(defaults.push(entry))) == needing_respawn(current, all_counts_view(defaults)).insert(entry.0@, shortfall(current, entry.0@, keyed_view(entry.1@))),
{
    lemma_all_counts_push(defaults, entry);
    assert(needing_respawn(current, all_counts_view(defaults.push(entry))) =~= needing_respawn(current, all_counts_view(defaults)).insert(entry.0@, shortfall(current, entry.0@, keyed_view(entry.1@))));
}

/// For every map and monster type of the full populations, how many
/// monsters are missing: the full population less the living ones.
pub fn count_monsters_needing_respawn(current_monsters_count: &AllSpawnCounts, default_spawn_counts: &AllSpawnCounts) -> (counts: AllSpawnCounts)
    requires
        counts_wf(current_monsters_count@),
        counts_wf(default_spawn_counts@),
        within_full_population(all_counts_view(current_monsters_count@), all_counts_view(default_spawn_counts@)),
    ensures
        counts_wf(counts@),
        all_counts_view(counts@) == needing_respawn(all_counts_view(current_monsters_count@), all_counts_view(default_spawn_counts@)),
{
    let ghost current = all_counts_view(current_monsters_count@);
    let ghost defaults = default_spawn_counts@;
    let mut monsters_needing_respawn: AllSpawnCounts = Vec::new();
    let n = default_spawn_counts.len();
    let mut i: usize = 0;
    while i < n
        invariant
            0 <= i <= n,
            n == defaults.len(),
            defaults == default_spawn_counts@,
            current == all_counts_view(current_monsters_count@),
            counts_wf(current_monsters_count@),
            counts_wf(defaults),
            within_full_population(current, all_counts_view(defaults)),
            monsters_needing_respawn@.len() == i,
            forall|k: int| 0 <= k < i ==> #[trigger] monsters_needing_respawn@[k].0@ == defaults[k].0@,
            counts_wf(monsters_needing_respawn@),
            all_counts_view(monsters_needing_respawn@) == needing_respawn(current, all_counts_view(defaults.take(i as int))),
        decreases n - i,
    {
        let map = &default_spawn_counts[i].0;
        let spawns = &default_spawn_counts[i].1;
        proof {
            lemma_keyed_lookup(defaults, i as int);
        }
        let mut map_monsters_needing_respawn: Vec<(String, u32)> = Vec::new();
        let m = spawns.len();
        let mut j: usize = 0;
        while j < m
            invariant
                0 <= j <= m,
                m == spawns@.len(),
                i < defaults.len(),
                spawns == defaults[i as int].1,
                map == defaults[i as int].0,
                defaults == default_spawn_counts@,
                current == all_counts_view(current_monsters_count@),
                counts_wf(current_monsters_count@),
                counts_wf(defaults),
                within_full_population(current, all_counts_view(defaults)),
                all_counts_view(defaults).contains_key(map@),
                all_counts_view(defaults)[map@] == keyed_view(spawns@),
                map_monsters_needing_respawn@.len() == j,
                forall|k: int| 0 <= k < j ==> #[trigger] map_monsters_needing_respawn@[k].0@ == spawns@[k].0@,
                distinct_names(map_monsters_needing_respawn@),
                keyed_view(map_monsters_needing_respawn@) == shortfall(current, map@, keyed_view(spawns@.take(j as int))),
            decreases m - j,
        {
            let monster = &spawns[j].0;
            let count = spawns[j].1;
            assert(distinct_names(defaults[i as int].1@));
            proof {
                lemma_keyed_lookup(spawns@, j as int);
            }
            let alive = lookup_count(current_monsters_count, map, monster);
            assert(alive <= count);
            let needing_respawn_count = count - alive;
            let ghost before = map_monsters_needing_respawn@;
            map_monsters_needing_respawn.push((monster.clone(), needing_respawn_count));
            proof {
                assert(spawns@.take(j + 1) == spawns@.take(j as int).push(spawns@[j as int]));
                lemma_shortfall_push(current, map@, spawns@.take(j as int), spawns@[j as int]);
                assert(map_monsters_needing_respawn@.drop_last() == before);
                assert(map_monsters_needing_respawn@.last().0@ == spawns@[j as int].0@);
                assert(map_monsters_needing_respawn@.last().1 == (spawns@[j as int].1 - count_in(current, map@, spawns@[j as int].0@)) as u32);
                assert(keyed_view(map_monsters_needing_respawn@) == keyed_view(before).insert(spawns@[j as int].0@, (spawns@[j as int].1 - count_in(current, map@, spawns@[j as int].0@)) as u32));
                assert forall|a: int, b: int|
                    0 <= a < map_monsters_needing_respawn@.len() && 0 <= b < map_monsters_needing_respawn@.len() && a != b
                        implies #[trigger] map_monsters_needing_respawn@[a].0@ != #[trigger] map_monsters_needing_respawn@[b].0@ by {
                    assert(map_monsters_needing_respawn@[a].0@ == spawns@[a].0@);
                    assert(map_monsters_needing_respawn@[b].0@ == spawns@[b].0@);
                }
            }
            j = j + 1;
        }
        assert(spawns@.take(m as int) == spawns@);
        let ghost before = monsters_needing_respawn@;
        monsters_needing_respawn.push((map.clone(), map_monsters_needing_respawn));
        proof {
            assert(defaults.take(i + 1) == defaults.take(i as int).push(defaults[i as int]));
            lemma_needing_push(current, defaults.take(i as int), defaults[i as int]);
            assert(monsters_needing_respawn@ == before.push(monsters_needing_respawn@.last()));
            lemma_all_counts_push(before, monsters_needing_respawn@.last());
            assert forall|a: int, b: int|
                0 <= a < monsters_needing_respawn@.len() && 0 <= b < monsters_needing_respawn@.len() && a != b
                    implies #[trigger] monsters_needing_respawn@[a].0@ != #[trigger] monsters_needing_respawn@[b].0@ by {
                assert(monsters_needing_respawn@[a].0@ == defaults[a].0@);
                assert(monsters_needing_respawn@[b].0@ == defaults[b].0@);
            }
            assert forall|a: int| 0 <= a < monsters_needing_respawn@.len() implies distinct_names(#[trigger] monsters_needing_respawn@[a].1@) by {
                if a < before.len() {
                    assert(monsters_needing_respawn@[a] == before[a]);
                }
            }
            assert(all_counts_view(monsters_needing_respawn@) =~= needing_respawn(current, all_counts_view(defaults.take(i + 1))));
        }
        i = i + 1;
    }
    assert(defaults.take(n as int) == defaults);
    monsters_needing_respawn
}

/// Whether a respawn roll from 0 to 101 lets a missing monster come back:
/// it does when the roll is at most the tick spawn chance.
pub open spec fn respawn_roll_hits(roll: u32) -> bool {
    TICK_SPAWN_CHANCE_PERCENTAGE >= roll
}

/// Whether a drawn respawn roll lets a missing monster come back: when the
/// roll is at most the tick spawn chance.
pub fn roll_hits(roll: u32) -> (hit: bool)
    ensures
        hit == respawn_roll_hits(roll),
{
    TICK_SPAWN_CHANCE_PERCENTAGE >= roll
}

/// Rolls from 0 to 101 whether a missing monster comes back this tick; the
/// answer for the drawn roll is that of `roll_hits`.
pub fn should_respawn_this_tick() -> (respawn: bool)
    ensures
        exists|roll: u32| roll <= 101 && respawn == #[trigger] respawn_roll_hits(roll),
{
    roll_hits(random_between(0, 101))
}

/// The monsters of one map that come back, in the order of its entries:
/// every monster type with a shortfall whose roll hits.
pub open spec fn map_respawns(map: Seq<char>, entries: Seq<(String, u32)>, rolls: Seq<u32>) -> Seq<(Seq<char>, Seq<char>)>
    decreases entries.len(),
{
    if entries.len() == 0 {
        Seq::empty()
    } else {
        let earlier = map_respawns(map, entries.drop_last(), rolls.take(entries.len() - 1));
        if respawn_roll_hits(rolls[entries.len() - 1]) && entries.last().1 > 0 {
            earlier.push((map, entries.last().0@))
        } else {
            earlier
        }
    }
}

/// The monsters that come back, map after map: one of each monster type
/// with a shortfall whose roll hits.
pub open spec fn respawns(needing: Seq<(String, Vec<(String, u32)>)>, rolls: Seq<Seq<u32>>) -> Seq<(Seq<char>, Seq<char>)>
    decreases needing.len(),
{
    if needing.len() == 0 {
        Seq::empty()
    } else {
        respawns(needing.drop_last(), rolls.take(needing.len() - 1)) + map_respawns(
            needing.last().0@,
            needing.last().1@,
            rolls[needing.len() - 1],
        )
    }
}

pub open spec fn requests_view(requests: Seq<(String, String)>) -> Seq<(Seq<char>, Seq<char>)> {
    requests.map_values(|r: (String, String)| (r.0@, r.1@))
}

pub open spec fn rolls_view(rolls: Seq<Vec<u32>>) -> Seq<Seq<u32>> {
    rolls.map_values(|r: Vec<u32>| r@)
}

/// Whether there is one roll for every monster type of every map.
pub open spec fn rolls_fit(needing: Seq<(String, Vec<(String, u32)>)>, rolls: Seq<Seq<u32>>) -> bool {
    rolls.len() == needing.len() && forall|i: int| 0 <= i < needing.len() ==> #[trigger] rolls[i].len() == needing[i].1@.len()
}

/// The map and monster type of every monster that comes back this tick,
/// given one roll per monster type of every map.
pub fn respawns_for_rolls(monsters_needing_respawn: &AllSpawnCounts, rolls: &Vec<Vec<u32>>) -> (requests: Vec<(String, String)>)
    requires
        rolls_fit(monsters_needing_respawn@, rolls_view(rolls@)),
    ensures
        requests_view(requests@) == respawns(monsters_needing_respawn@, rolls_view(rolls@)),
{
    let ghost needing = monsters_needing_respawn@;
    let ghost all_rolls = rolls_view(rolls@);
    let mut requests: Vec<(String, String)> = Vec::new();
    let n = monsters_needing_respawn.len();
    let mut i: usize = 0;
    while i < n
        invariant
            0 <= i <= n,
            n == needing.len(),
            needing == monsters_needing_respawn@,
            all_rolls == rolls_view(rolls@),
            rolls_fit(needing, all_rolls),
            requests_view(requests@) == respawns(needing.take(i as int), all_rolls.take(i as int)),
        decreases n - i,
    {
        let map = &monsters_needing_respawn[i].0;
        let spawns = &monsters_needing_respawn[i].1;
        let map_rolls = &rolls[i];
        assert(map_rolls@ == all_rolls[i as int]);
        let ghost earlier = requests_view(requests@);
        let m = spawns.len();
        let mut j: usize = 0;
        while j < m
            invariant
                0 <= j <= m,
                m == spawns@.len(),
                map_rolls@.len() == m,
                requests_view(requests@) == earlier + map_respawns(map@, spawns@.take(j as int), map_rolls@.take(j as int)),
            decreases m - j,
        {
            let ghost before = requests@;
            if TICK_SPAWN_CHANCE_PERCENTAGE >= map_rolls[j] && spawns[j].1 > 0 {
                requests.push((map.clone(), spawns[j].0.clone()));
                assert(requests_view(requests@) == requests_view(before).push((map@, spawns@[j as int].0@)));
            }
            proof {
                assert(spawns@.take(j + 1).drop_last() == spawns@.take(j as int));
                assert(map_rolls@.take(j + 1).take(j as int) == map_rolls@.take(j as int));
                assert(spawns@.take(j + 1).last() == spawns@[j as int]);
                assert(map_rolls@.take(j + 1)[j as int] == map_rolls@[j as int]);
            }
            j = j + 1;
        }
        proof {
            assert(spawns@.take(m as int) == spawns@);
            assert(map_rolls@.take(m as int) == map_rolls@);
            assert(needing.take(i + 1).drop_last() == needing.take(i as int));
            assert(all_rolls.take(i + 1).take(i as int) == all_rolls.take(i as int));
            assert(needing.take(i + 1).last() == needing[i as int]);
            assert(all_rolls.take(i + 1)[i as int] == all_rolls[i as int]);
        }
        i = i + 1;
    }
    assert(needing.take(n as int) == needing);
    assert(all_rolls.take(n as int) == all_rolls);
    requests
}

/// The map and monster type of every monster that comes back this tick:
/// for each monster type of each map, a roll from 0 to 101 is drawn, and the
/// type comes back once when some of it is missing and the roll hits.
pub fn respawn_monsters(monsters_needing_respawn: &AllSpawnCounts) -> (requests: Vec<(String, String)>)
    ensures
        exists|rolls: Seq<Seq<u32>>|
            rolls_fit(monsters_needing_respawn@, rolls) && (forall|i: int, j: int|
                0 <= i < rolls.len() && 0 <= j < rolls[i].len() ==> #[trigger] rolls[i][j] <= 101)
                && requests_view(requests@) == #[trigger] respawns(monsters_needing_respawn@, rolls),
{
    let mut rolls: Vec<Vec<u32>> = Vec::new();
    let n = monsters_needing_respawn.len();
    let mut i: usize = 0;
    while i < n
        invariant
            0 <= i <= n,
            n == monsters_needing_respawn@.len(),
            rolls@.len() == i,
            forall|k: int| 0 <= k < i ==> #[trigger] rolls@[k]@.len() == monsters_needing_respawn@[k].1@.len(),
            forall|k: int, j: int| 0 <= k < i && 0 <= j < rolls@[k]@.len() ==> #[trigger] rolls@[k]@[j] <= 101,
        decreases n - i,
    {
        let m = monsters_needing_respawn[i].1.len();
        let mut map_rolls: Vec<u32> = Vec::new();
        let mut j: usize = 0;
        while j < m
            invariant
                0 <= j <= m,
                map_rolls@.len() == j,
                forall|k: int| 0 <= k < j ==> #[trigger] map_rolls@[k] <= 101,
            decreases m - j,
        {
            map_rolls.push(random_between(0, 101));
            j = j + 1;
        }
        rolls.push(map_rolls);
        i = i + 1;
    }
    let requests = respawns_for_rolls(monsters_needing_respawn, &rolls);
    assert forall|k: int, j: int| 0 <= k < rolls_view(rolls@).len() && 0 <= j < rolls_view(rolls@)[k].len() implies #[trigger] rolls_view(rolls@)[k][j] <= 101 by {
        assert(rolls_view(rolls@)[k] == rolls@[k]@);
    }
    requests
}

/// The position of a monster spawned at `point` on `map`, at rest.
pub open spec fn spawned_at(map: Seq<char>, point: PositionWithoutMap) -> PositionView {
    PositionView {
        update_available: false,
        pos_x: point.x,
        pos_y: point.y,
        current_map: map,
        velocity_x: 0,
        velocity_y: 0,
    }
}

/// The position of a monster spawned at `point` on `map`, at rest.
pub fn spawn_position_at(map: &String, point: PositionWithoutMap) -> (position: Position)
    ensures
        position@ == spawned_at(map@, point),
{
    Position {
        update_available: false,
        pos_x: point.x,
        pos_y: point.y,
        current_map: map.clone(),
        velocity_x: 0,
        velocity_y: 0,
    }
}

/// Whether every list of spawn points of `monster_type` on a map is non-empty.
pub open spec fn has_spawn_points(monsters: Seq<MonsterSpawnPositions>, monster_type: Seq<char>) -> bool {
    forall|j: int| 0 <= j < monsters.len() && #[trigger] monsters[j].monster_type@ == monster_type
        ==> monsters[j].spawn_positions@.len() > 0
}

/// The lists of spawn points of `monster_type` on a map, in order.
pub open spec fn matching_spawn_lists(monsters: Seq<MonsterSpawnPositions>, monster_type: Seq<char>) -> Seq<Seq<PositionWithoutMap>> {
    monsters.filter(of_type(monster_type)).map_values(
        |m: MonsterSpawnPositions| m.spawn_positions@,
    )
}

/// Whether a list of spawn points is of `monster_type`.
pub open spec fn of_type(monster_type: Seq<char>) -> spec_fn(MonsterSpawnPositions) -> bool {
    |m: MonsterSpawnPositions| m.monster_type@ == monster_type
}

proof fn lemma_matching_push(monsters: Seq<MonsterSpawnPositions>, m: MonsterSpawnPositions, monster_type: Seq<char>)
    ensures
        matching_spawn_lists(monsters.push(m), monster_type) == if m.monster_type@ == monster_type {
            matching_spawn_lists(monsters, monster_type).push(m.spawn_positions@)
        } else {
            matching_spawn_lists(monsters, monster_type)
        },
{
    monsters.lemma_filter_push(m, of_type(monster_type));
    assert(matching_spawn_lists(monsters.push(m), monster_type) =~= if m.monster_type@ == monster_type {
        matching_spawn_lists(monsters, monster_type).push(m.spawn_positions@)
    } else {
        matching_spawn_lists(monsters, monster_type)
    });
}

/// Whether `position` stands at one of the points of `list` on `map`.
pub open spec fn placed_from(position: Position, list: Seq<PositionWithoutMap>, map: Seq<char>) -> bool {
    exists|p: PositionWithoutMap| list.contains(p) && position@ == spawned_at(map, p)
}

/// Whether `positions` holds, for every list in `lists`, a position at one of
/// that list's points on `map`.
pub open spec fn one_position_per_list(positions: Seq<Position>, lists: Seq<Seq<PositionWithoutMap>>, map: Seq<char>) -> bool {
    positions.len() == lists.len() && forall|k: int| 0 <= k < lists.len() ==> #[trigger] placed_from(positions[k], lists[k], map)
}

/// The positions at which monsters of one type come back on a map: for every
/// list of spawn points of that type on the map, in order, one of its points,
/// chosen at random.
pub fn spawn_single_monster_positions(spawns: &Spawns, map: &String, monster_type: &String) -> (positions: Vec<Position>)
    requires
        has_spawn_points(spawns.monsters@, monster_type@),
    ensures
        one_position_per_list(positions@, matching_spawn_lists(spawns.monsters@, monster_type@), map@),
{
    let mut positions: Vec<Position> = Vec::new();
    let n = spawns.monsters.len();
    let mut j: usize = 0;
    while j < n
        invariant
            0 <= j <= n,
            n == spawns.monsters@.len(),
            has_spawn_points(spawns.monsters@, monster_type@),
            one_position_per_list(positions@, matching_spawn_lists(spawns.monsters@.take(j as int), monster_type@), map@),
        decreases n - j,
    {
        let monster_spawn_positions = &spawns.monsters[j];
        let ghost before = spawns.monsters@.take(j as int);
        let ghost old_positions = positions@;
        let ghost old_lists = matching_spawn_lists(before, monster_type@);
        proof {
            assert(spawns.monsters@.take(j + 1) == before.push(spawns.monsters@[j as int]));
            lemma_matching_push(before, spawns.monsters@[j as int], monster_type@);
        }
        if monster_spawn_positions.monster_type == *monster_type {
            let chosen = choose_spawn_point(&monster_spawn_positions.spawn_positions);
            let point = chosen.unwrap();
            positions.push(spawn_position_at(map, point));
            proof {
                let lists = matching_spawn_lists(spawns.monsters@.take(j + 1), monster_type@);
                assert forall|k: int| 0 <= k < lists.len() implies #[trigger] placed_from(positions@[k], lists[k], map@) by {
                    if k < old_lists.len() {
                        assert(positions@[k] == old_positions[k]);
                        assert(lists[k] == old_lists[k]);
                        assert(placed_from(old_positions[k], old_lists[k], map@));
                    } else {
                        assert(lists[k].contains(point) && positions@[k]@ == spawned_at(map@, point));
                    }
                }
            }
        }
        j = j + 1;
    }
    assert(spawns.monsters@.take(n as int) == spawns.monsters@);
    positions
}

/// The monster type and position of a monster at each of `points` on `map`.
pub open spec fn point_spawns(map: Seq<char>, monster_type: Seq<char>, points: Seq<PositionWithoutMap>) -> Seq<(Seq<char>, PositionView)> {
    points.map_values(|p: PositionWithoutMap| (monster_type, spawned_at(map, p)))
}

/// The monster type and position of a monster at every spawn point of a
/// map, list after list.
pub open spec fn map_spawns(map: Seq<char>, monsters: Seq<MonsterSpawnPositions>) -> Seq<(Seq<char>, PositionView)>
    decreases monsters.len(),
{
    if monsters.len() == 0 {
        Seq::empty()
    } else {
        map_spawns(map, monsters.drop_last()) + point_spawns(map, monsters.last().monster_type@, monsters.last().spawn_positions@)
    }
}

/// The monster type and position of a monster at every spawn point of every
/// map, map after map.
pub open spec fn initial_spawns(all_spawns: Seq<(String, Spawns)>) -> Seq<(Seq<char>, PositionView)>
    decreases all_spawns.len(),
{
    if all_spawns.len() == 0 {
        Seq::empty()
    } else {
        initial_spawns(all_spawns.drop_last()) + map_spawns(all_spawns.last().0@, all_spawns.last().1.monsters@)
    }
}

pub open spec fn spawned_view(spawned: Seq<(String, Position)>) -> Seq<(Seq<char>, PositionView)> {
    spawned.map_values(|s: (String, Position)| (s.0@, s.1@))
}

/// The monster type and position of the monster that starts at every spawn
/// point of every map, when the world is new.
pub fn initial_spawn_positions(all_spawns_map: &Vec<(String, Spawns)>) -> (spawned: Vec<(String, Position)>)
    ensures
        spawned_view(spawned@) == initial_spawns(all_spawns_map@),
{
    let mut spawned: Vec<(String, Position)> = Vec::new();
    let n = all_spawns_map.len();
    let mut i: usize = 0;
    while i < n
        invariant
            0 <= i <= n,
            n == all_spawns_map@.len(),
            spawned_view(spawned@) == initial_spawns(all_spawns_map@.take(i as int)),
        decreases n - i,
    {
        let map = &all_spawns_map[i].0;
        let monsters = &all_spawns_map[i].1.monsters;
        let ghost before_map = spawned_view(spawned@);
        let m = monsters.len();
        let mut j: usize = 0;
        while j < m
            invariant
                0 <= j <= m,
                m == monsters@.len(),
                spawned_view(spawned@) == before_map + map_spawns(map@, monsters@.take(j as int)),
            decreases m - j,
        {
            let monster = &monsters[j];
            let ghost before_list = spawned_view(spawned@);
            let k = monster.spawn_positions.len();
            let mut l: usize = 0;
            while l < k
                invariant
                    0 <= l <= k,
                    k == monster.spawn_positions@.len(),
                    spawned_view(spawned@) == before_list + point_spawns(map@, monster.monster_type@, monster.spawn_positions@.take(l as int)),
                decreases k - l,
            {
                let ghost before_point = spawned_view(spawned@);
                let position = spawn_position_at(map, monster.spawn_positions[l]);
                spawned.push((monster.monster_type.clone(), position));
                proof {
                    assert(spawned_view(spawned@) == before_point.push((monster.monster_type@, spawned_at(map@, monster.spawn_positions@[l as int]))));
                    assert(point_spawns(map@, monster.monster_type@, monster.spawn_positions@.take(l + 1)) == point_spawns(map@, monster.monster_type@, monster.spawn_positions@.take(l as int)).push((monster.monster_type@, spawned_at(map@, monster.spawn_positions@[l as int]))));
                    assert(spawned_view(spawned@) =~= before_list + point_spawns(map@, monster.monster_type@, monster.spawn_positions@.take(l + 1)));
                }
                l = l + 1;
            }
            proof {
                assert(monster.spawn_positions@.take(k as int) == monster.spawn_positions@);
                assert(monsters@.take(j + 1).drop_last() == monsters@.take(j as int));
                assert(monsters@.take(j + 1).last() == monsters@[j as int]);
                assert(spawned_view(spawned@) =~= before_map + map_spawns(map@, monsters@.take(j + 1)));
            }
            j = j + 1;
        }
        proof {
            assert(monsters@.take(m as int) == monsters@);
            assert(all_spawns_map@.take(i + 1).drop_last() == all_spawns_map@.take(i as int));
            assert(all_spawns_map@.take(i + 1).last() == all_spawns_map@[i as int]);
        }
        i = i + 1;
    }
    assert(all_spawns_map@.take(n as int) == all_spawns_map@);
    spawned
}

/// Keys the spawn definitions read from the spawn files by the map names
/// their file names give (the part before the first dot); a later file for the
/// same map overrides an earlier one.
pub fn get_all_spawns_positions(files: Vec<(String, Spawns)>) -> (all_spawns_map: Vec<(String, Spawns)>)
    ensures
        distinct_names(all_spawns_map@),
        keyed_view(all_spawns_map@) == named_by_file(files@),
{
    collect_named(files)
}

/// The spawn definitions of every map, keyed by map name, together with the
/// number of monsters of each type that every map holds when fully populated.
pub fn initialise_all_spawn_definitions(files: Vec<(String, Spawns)>) -> (definitions: (AllSpawnCounts, Vec<(String, Spawns)>))
    requires
        spawn_lists_countable(files@),
    ensures
        distinct_names(definitions.1@),
        keyed_view(definitions.1@) == named_by_file(files@),
        counts_wf(definitions.0@),
        all_counts_view(definitions.0@) == default_counts_view(definitions.1@),
{
    let ghost read_files = files@;
    let all_spawns_map = get_all_spawns_positions(files);
    proof {
        let named = all_spawns_map@;
        assert forall|i: int, j: int|
            0 <= i < named.len() && 0 <= j < named[i].1.monsters@.len()
                implies #[trigger] named[i].1.monsters@[j].spawn_positions@.len() <= u32::MAX by {
            lemma_keyed_lookup(named, i);
            lemma_named_by_file_origin(read_files, named[i].0@);
            let f = choose|f: int| 0 <= f < read_files.len() && #[trigger] read_files[f].1 == named_by_file(read_files)[named[i].0@];
            assert(read_files[f].1.monsters@[j].spawn_positions@.len() <= u32::MAX);
        }
    }
    (get_default_spawn_counts(&all_spawns_map), all_spawns_map)
}

/// The living monsters counted per map and monster type.
pub open spec fn tally(monsters: Seq<(MonsterDetails, Position)>) -> Map<Seq<char>, Map<Seq<char>, u32>>
    decreases monsters.len(),
{
    if monsters.len() == 0 {
        Map::empty()
    } else {
        counted_one_more(tally(monsters.drop_last()), monsters.last().1.current_map@, monsters.last().0.monster_type@)
    }
}

proof fn lemma_tally_bound(monsters: Seq<(MonsterDetails, Position)>, map: Seq<char>, monster: Seq<char>)
    requires
        monsters.len() < u32::MAX,
    ensures
        count_in(tally(monsters), map, monster) <= monsters.len(),
    decreases monsters.len(),
{
    if monsters.len() > 0 {
        let init = monsters.drop_last();
        lemma_tally_bound(init, map, monster);
        lemma_tally_bound(init, monsters.last().1.current_map@, monsters.last().0.monster_type@);
    }
}

/// Which monsters come back this tick: the living monsters are counted per
/// map and type, the shortfall against the full populations is taken, and
/// each map and type with a shortfall is rolled for once.
pub fn spawn_monsters(monsters: &Vec<(MonsterDetails, Position)>, default_spawn_counts: &AllSpawnCounts) -> (requests: Vec<(String, String)>)
    requires
        monsters@.len() < u32::MAX,
        counts_wf(default_spawn_counts@),
        within_full_population(tally(monsters@), all_counts_view(default_spawn_counts@)),
    ensures
        exists|needing: Seq<(String, Vec<(String, u32)>)>, rolls: Seq<Seq<u32>>|
            counts_wf(needing) && all_counts_view(needing) == needing_respawn(tally(monsters@), all_counts_view(default_spawn_counts@))
            && rolls_fit(needing, rolls) && (forall|i: int, j: int|
                0 <= i < rolls.len() && 0 <= j < rolls[i].len() ==> #[trigger] rolls[i][j] <= 101)
            && requests_view(requests@) == #[trigger] respawns(needing, rolls),
{
    let mut current_monsters_count: AllSpawnCounts = Vec::new();
    assert(all_counts_view(current_monsters_count@) =~= tally(monsters@.take(0)));
    let n = monsters.len();
    let mut i: usize = 0;
    while i < n
        invariant
            0 <= i <= n,
            n == monsters@.len(),
            n < u32::MAX,
            counts_wf(current_monsters_count@),
            all_counts_view(current_monsters_count@) == tally(monsters@.take(i as int)),
        decreases n - i,
    {
        let ghost prefix = monsters@.take(i as int);
        proof {
            lemma_tally_bound(prefix, monsters@[i as int].1.current_map@, monsters@[i as int].0.monster_type@);
            assert(monsters@.take(i + 1).drop_last() =~= prefix);
        }
        current_monsters_count = count_alive_monsters(current_monsters_count, &monsters[i].0, &monsters[i].1);
        i = i + 1;
    }
    assert(monsters@.take(n as int) =~= monsters@);
    let monsters_needing_respawn = count_monsters_needing_respawn(&current_monsters_count, default_spawn_counts);
    let requests = respawn_monsters(&monsters_needing_respawn);
    requests
}

/// Respawning makes the population whole: for every map and monster type of
/// the full populations, the living monsters and the missing ones add up to
/// the full population.
pub proof fn law_respawn_fills_population(
    current: Map<Seq<char>, Map<Seq<char>, u32>>,
    default: Map<Seq<char>, Map<Seq<char>, u32>>,
    map: Seq<char>,
    monster: Seq<char>,
)
    requires
        within_full_population(current, default),
        default.contains_key(map),
        default[map].contains_key(monster),
    ensures
        needing_respawn(current, default).contains_key(map),
        needing_respawn(current, default)[map].contains_key(monster),
        count_in(current, map, monster) + needing_respawn(current, default)[map][monster] == default[map][monster],
{
}

/// A fully populated world needs no respawns: every shortfall is zero.
pub proof fn law_full_population_needs_nothing(default: Map<Seq<char>, Map<Seq<char>, u32>>, map: Seq<char>, monster: Seq<char>)
    requires
        default.contains_key(map),
        default[map].contains_key(monster),
    ensures
        needing_respawn(default, default)[map][monster] == 0,
{
}

/// Counting a living monster raises the count of its map and type by one and
/// leaves every other count as it was.
pub proof fn law_count_one_more(
    counts: Map<Seq<char>, Map<Seq<char>, u32>>,
    map: Seq<char>,
    monster: Seq<char>,
    other_map: Seq<char>,
    other_monster: Seq<char>,
)
    requires
        count_in(counts, map, monster) < u32::MAX,
    ensures
        count_in(counted_one_more(counts, map, monster), map, monster) == count_in(counts, map, monster) + 1,
        (other_map, other_monster) != (map, monster) ==> count_in(counted_one_more(counts, map, monster), other_map, other_monster)
            == count_in(counts, other_map, other_monster),
{
}

/// No monster comes back on a map where none is missing, whatever the rolls.
pub proof fn law_no_respawn_without_shortfall(map: Seq<char>, entries: Seq<(String, u32)>, rolls: Seq<u32>)
    requires
        forall|j: int| 0 <= j < entries.len() ==> #[trigger] entries[j].1 == 0,
    ensures
        map_respawns(map, entries, rolls) == Seq::<(Seq<char>, Seq<char>)>::empty(),
    decreases entries.len(),
{
    if entries.len() > 0 {
        let init = entries.drop_last();
        assert forall|j: int| 0 <= j < init.len() implies #[trigger] init[j].1 == 0 by {
            assert(init[j] == entries[j]);
        }
        law_no_respawn_without_shortfall(map, init, rolls.take(entries.len() - 1));
        assert(entries.last().1 == 0);
    }
}

proof fn lemma_map_respawns_origin(map: Seq<char>, entries: Seq<(String, u32)>, rolls: Seq<u32>, k: int)
    requires
        0 <= k < map_respawns(map, entries, rolls).len(),
    ensures
        map_respawns(map, entries, rolls)[k].0 == map,
        exists|e: int| 0 <= e < entries.len() && #[trigger] entries[e].0@ == map_respawns(map, entries, rolls)[k].1 && entries[e].1 > 0,
    decreases entries.len(),
{
    let init = entries.drop_last();
    let earlier = map_respawns(map, init, rolls.take(entries.len() - 1));
    if k < earlier.len() {
        lemma_map_respawns_origin(map, init, rolls.take(entries.len() - 1), k);
        let e = choose|e: int| 0 <= e < init.len() && #[trigger] init[e].0@ == earlier[k].1 && init[e].1 > 0;
        assert(entries[e] == init[e]);
    } else {
        assert(entries[entries.len() - 1] == entries.last());
    }
}

proof fn lemma_map_respawns_unique(map: Seq<char>, entries: Seq<(String, u32)>, rolls: Seq<u32>)
    requires
        distinct_names(entries),
    ensures
        map_respawns(map, entries, rolls).no_duplicates(),
    decreases entries.len(),
{
    if entries.len() > 0 {
        let init = entries.drop_last();
        let r = rolls.take(entries.len() - 1);
        assert(distinct_names(init)) by {
            assert forall|a: int, b: int| 0 <= a < init.len() && 0 <= b < init.len() && a != b implies #[trigger] init[a].0@
                != #[trigger] init[b].0@ by {
                assert(init[a] == entries[a] && init[b] == entries[b]);
            }
        }
        lemma_map_respawns_unique(map, init, r);
        let earlier = map_respawns(map, init, r);
        let all = map_respawns(map, entries, rolls);
        if all.len() > earlier.len() {
            assert forall|k: int| 0 <= k < earlier.len() implies #[trigger] earlier[k] != all[earlier.len() as int] by {
                lemma_map_respawns_origin(map, init, r, k);
                let e = choose|e: int| 0 <= e < init.len() && #[trigger] init[e].0@ == earlier[k].1 && init[e].1 > 0;
                assert(entries[e] == init[e]);
                assert(entries[e].0@ != entries[entries.len() - 1].0@);
            }
        }
    }
}

/// Whether `request` names a map and monster type with a shortfall.
pub open spec fn is_missing_type(needing: Seq<(String, Vec<(String, u32)>)>, request: (Seq<char>, Seq<char>)) -> bool {
    exists|i: int, e: int|
        0 <= i < needing.len() && 0 <= e < needing[i].1@.len() && #[trigger] needing[i].0@ == request.0
            && #[trigger] needing[i].1@[e].0@ == request.1 && needing[i].1@[e].1 > 0
}

proof fn lemma_respawns_origin(needing: Seq<(String, Vec<(String, u32)>)>, rolls: Seq<Seq<u32>>, k: int)
    requires
        0 <= k < respawns(needing, rolls).len(),
    ensures
        is_missing_type(needing, respawns(needing, rolls)[k]),
    decreases needing.len(),
{
    let init = needing.drop_last();
    let r = rolls.take(needing.len() - 1);
    let earlier = respawns(init, r);
    let last = needing.len() - 1;
    let here = map_respawns(needing.last().0@, needing.last().1@, rolls[last]);
    assert(respawns(needing, rolls) == earlier + here);
    if k < earlier.len() {
        lemma_respawns_origin(init, r, k);
        let (i, e) = choose|i: int, e: int|
            0 <= i < init.len() && 0 <= e < init[i].1@.len() && #[trigger] init[i].0@ == earlier[k].0
                && #[trigger] init[i].1@[e].0@ == earlier[k].1 && init[i].1@[e].1 > 0;
        assert(needing[i] == init[i]);
        assert(needing[i].1@[e].0@ == respawns(needing, rolls)[k].1);
    } else {
        lemma_map_respawns_origin(needing.last().0@, needing.last().1@, rolls[last], k - earlier.len());
        let e = choose|e: int| 0 <= e < needing.last().1@.len() && #[trigger] needing.last().1@[e].0@ == here[k - earlier.len()].1
            && needing.last().1@[e].1 > 0;
        assert(needing[last] == needing.last());
        assert(needing[last].1@[e].0@ == respawns(needing, rolls)[k].1);
    }
}

/// At most one monster of each type comes back on a map per tick, and only a
/// type that is missing there: the requests name no map and type twice, and
/// each names a map and type with a shortfall.
pub proof fn law_respawn_once_per_type(needing: Seq<(String, Vec<(String, u32)>)>, rolls: Seq<Seq<u32>>)
    requires
        counts_wf(needing),
    ensures
        respawns(needing, rolls).no_duplicates(),
        forall|k: int| 0 <= k < respawns(needing, rolls).len() ==> is_missing_type(needing, #[trigger] respawns(needing, rolls)[k]),
    decreases needing.len(),
{
    assert forall|k: int| 0 <= k < respawns(needing, rolls).len() implies is_missing_type(needing, #[trigger] respawns(needing, rolls)[k]) by {
        lemma_respawns_origin(needing, rolls, k);
    }
    if needing.len() > 0 {
        let init = needing.drop_last();
        let r = rolls.take(needing.len() - 1);
        let last = needing.len() - 1;
        assert(counts_wf(init)) by {
            assert forall|a: int, b: int| 0 <= a < init.len() && 0 <= b < init.len() && a != b implies #[trigger] init[a].0@
                != #[trigger] init[b].0@ by {
                assert(init[a] == needing[a] && init[b] == needing[b]);
            }
            assert forall|a: int| 0 <= a < init.len() implies distinct_names(#[trigger] init[a].1@) by {
                assert(init[a] == needing[a]);
            }
        }
        law_respawn_once_per_type(init, r);
        let earlier = respawns(init, r);
        assert(needing[last] == needing.last());
        lemma_map_respawns_unique(needing.last().0@, needing.last().1@, rolls[last]);
        let here = map_respawns(needing.last().0@, needing.last().1@, rolls[last]);
        let all = respawns(needing, rolls);
        assert(all == earlier + here);
        assert forall|a: int, b: int| 0 <= a < all.len() && 0 <= b < all.len() && a != b implies all[a] != all[b] by {
            if a < earlier.len() && b >= earlier.len() {
                lemma_respawns_origin(init, r, a);
                let (i, e) = choose|i: int, e: int|
                    0 <= i < init.len() && 0 <= e < init[i].1@.len() && #[trigger] init[i].0@ == earlier[a].0
                        && #[trigger] init[i].1@[e].0@ == earlier[a].1 && init[i].1@[e].1 > 0;
                lemma_map_respawns_origin(needing.last().0@, needing.last().1@, rolls[last], b - earlier.len());
                assert(needing[i] == init[i]);
                assert(needing[i].0@ != needing[last].0@);
            } else if b < earlier.len() && a >= earlier.len() {
                lemma_respawns_origin(init, r, b);
                let (i, e) = choose|i: int, e: int|
                    0 <= i < init.len() && 0 <= e < init[i].1@.len() && #[trigger] init[i].0@ == earlier[b].0
                        && #[trigger] init[i].1@[e].0@ == earlier[b].1 && init[i].1@[e].1 > 0;
                lemma_map_respawns_origin(needing.last().0@, needing.last().1@, rolls[last], a - earlier.len());
                assert(needing[i] == init[i]);
                assert(needing[i].0@ != needing[last].0@);
            } else if a < earlier.len() {
                assert(all[a] == earlier[a] && all[b] == earlier[b]);
            } else {
                assert(all[a] == here[a - earlier.len()] && all[b] == here[b - earlier.len()]);
            }
        }
    }
}

} // verus!
