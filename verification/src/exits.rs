use vstd::prelude::*;
use crate::keyed::{collect_named, distinct_names, keyed_view, named_by_file};

verus! {

/// An exit on a map: a player standing on column `x`, row `y` who asks to
/// change map is moved to column `new_x`, row `new_y` of `new_map`.
#[derive(Debug)]
pub struct MapExitPositions {
    pub x: u32,
    pub y: u32,
    pub new_map: String,
    pub new_x: u32,
    pub new_y: u32,
}

/// The exits of one map, as a map exit file lists them.
#[derive(Debug)]
pub struct MapExits {
    pub map_exits: Vec<MapExitPositions>,
}

/// The exits of every map, keyed by map name; each name occurs once.
pub type AllMapExits = Vec<(String, Vec<MapExitPositions>)>;

/// The exit files with each file's exits taken out of their wrapper.
pub open spec fn exit_lists(files: Seq<(String, MapExits)>) -> Seq<(String, Vec<MapExitPositions>)> {
    files.map_values(|f: (String, MapExits)| (f.0, f.1.map_exits))
}

/// Keys the exits read from the map exit files by the map names their file
/// names give (the part before the first dot); a later file for the same map
/// overrides an earlier one.
pub fn initialise_all_map_exit_definitions(files: Vec<(String, MapExits)>) -> (all_map_exits: AllMapExits)
    ensures
        distinct_names(all_map_exits@),
        keyed_view(all_map_exits@) == named_by_file(exit_lists(files@)),
{
    let ghost all = files@;
    let mut files = files;
    let mut lists: Vec<(String, Vec<MapExitPositions>)> = Vec::new();
    while files.len() > 0
        invariant
            lists@.len() + files@.len() == all.len(),
            files@ == all.skip(lists@.len() as int),
            lists@ == exit_lists(all.take(lists@.len() as int)),
        decreases files.len(),
    {
        let ghost done = lists@.len() as int;
        let (file_name, exits) = files.remove(0);
        lists.push((file_name, exits.map_exits));
        proof {
            assert(all.skip(done)[0] == all[done]);
            assert(all.skip(done).remove(0) =~= all.skip(done + 1));
            assert(lists@ =~= exit_lists(all.take(done + 1)));
        }
    }
    assert(all.take(all.len() as int) =~= all);
    collect_named(lists)
}

/// The exits of `map`, or none when the map has no exit file.
pub open spec fn exits_of(all_map_exits: Seq<(String, Vec<MapExitPositions>)>, map: Seq<char>) -> Seq<MapExitPositions> {
    if keyed_view(all_map_exits).contains_key(map) {
        keyed_view(all_map_exits)[map]@
    } else {
        Seq::empty()
    }
}

/// Whether an exit lies on column `x`, row `y`.
pub open spec fn exit_at_spot(x: u32, y: u32) -> spec_fn(MapExitPositions) -> bool {
    |e: MapExitPositions| e.x == x && e.y == y
}

} // verus!
