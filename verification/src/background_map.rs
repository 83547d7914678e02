use vstd::prelude::*;
use crate::grid::{tile_grid_cells, tile_grid_from_cells, tile_grid_get, tile_grid_shape, TileGrid};
use crate::tiles::{map_character_to_tile, tile_for_char, Tile};
use crate::keyed::{collect_named, distinct_names, keyed_view, name_before_dot, named_by_file};

verus! {

/// The state of reading a map file one character at a time: the finished
/// rows, the row being read, the current column and row, and the length of
/// the longest finished row.
pub struct MapScan {
    pub rows: Seq<Seq<Tile>>,
    pub row: Seq<Tile>,
    pub x: nat,
    pub y: nat,
    pub width: nat,
}

pub open spec fn nat_max(a: nat, b: nat) -> nat {
    if a >= b { a } else { b }
}

/// Reading one more character: a newline finishes the current row and starts
/// the next one, a carriage return is skipped, `%` (end of file) adds the
/// current row to the finished rows without starting a new one, and any other
/// character adds its tile to the current row.
pub open spec fn scan_step(s: MapScan, c: char) -> MapScan {
    if c == '\n' {
        MapScan {
            rows: s.rows.push(s.row),
            row: Seq::empty(),
            x: 0,
            y: s.y + 1,
            width: nat_max(s.width, s.row.len()),
        }
    } else if c == '\r' {
        s
    } else if c == '%' {
        MapScan { rows: s.rows.push(s.row), width: nat_max(s.width, s.row.len()), ..s }
    } else {
        MapScan { row: s.row.push(tile_for_char(s.x as u32, s.y as u32, c)), x: s.x + 1, ..s }
    }
}

/// The state after reading all of `chars` from the start of a map file.
pub open spec fn scan_map_chars(chars: Seq<char>) -> MapScan
    decreases chars.len(),
{
    if chars.len() == 0 {
        MapScan { rows: Seq::empty(), row: Seq::empty(), x: 0, y: 0, width: 0 }
    } else {
        scan_step(scan_map_chars(chars.drop_last()), chars.last())
    }
}

pub open spec fn rows_view(rows: Seq<Vec<Tile>>) -> Seq<Seq<Tile>> {
    rows.map_values(|r: Vec<Tile>| r@)
}

/// Reads the characters of a map file into rows of tiles, returning the rows
/// and the length of the longest one.
pub fn scan_map_rows(data: &str) -> (result: (Vec<Vec<Tile>>, usize))
    requires
        data@.len() < u32::MAX,
    ensures
        rows_view(result.0@) == scan_map_chars(data@).rows,
        result.1 == scan_map_chars(data@).width,
{
    let mut processed_data: Vec<Vec<Tile>> = Vec::new();
    let mut row_data: Vec<Tile> = Vec::new();
    let mut current_x: u32 = 0;
    let mut max_x_len: usize = 0;
    let mut current_y: u32 = 0;
    for character in it: data.chars()
        invariant
            it.seq() == data@,
            data@.len() < u32::MAX,
            ({
                let s = scan_map_chars(data@.take(it.index() as int));
                &&& rows_view(processed_data@) == s.rows
                &&& row_data@ == s.row
                &&& current_x == s.x
                &&& current_y == s.y
                &&& max_x_len == s.width
                &&& s.x <= it.index()
                &&& s.y <= it.index()
                &&& s.width <= it.index()
                &&& s.row.len() == s.x
            }),
    {
        let ghost before = data@.take(it.index() as int);
        let tile = map_character_to_tile(current_x, current_y, character);
        match tile {
            Tile::NewLine => {
                if row_data.len() > max_x_len {
                    max_x_len = row_data.len();
                }
                let finished = row_data;
                processed_data.push(finished);
                row_data = Vec::new();
                current_x = 0;
                current_y = current_y + 1;
            },
            Tile::CarriageReturn => {},
            Tile::EndOfFile => {
                if row_data.len() > max_x_len {
                    max_x_len = row_data.len();
                }
                processed_data.push(row_data.clone());
            },
            _ => {
                row_data.push(tile);
                current_x = current_x + 1;
            },
        }
        proof {
            assert(data@.take(it.index() + 1) == before.push(character));
            assert(data@.take(it.index() + 1).drop_last() == before);
        }
    }
    assert(data@.take(data@.len() as int) == data@);
    (processed_data, max_x_len)
}

/// `row` lengthened with copies of `value` up to `width` cells; rows that are
/// already at least that long stay as they are.
pub open spec fn padded_to<T>(row: Seq<T>, width: nat, value: T) -> Seq<T> {
    if row.len() >= width {
        row
    } else {
        row + Seq::new((width - row.len()) as nat, |i: int| value)
    }
}

/// Lengthens every row of `vec` with copies of `padded_value` up to
/// `max_x_len` cells.
pub fn pad_all_rows<T: Copy>(vec: &mut Vec<Vec<T>>, max_x_len: usize, padded_value: T)
    ensures
        final(vec)@.len() == old(vec)@.len(),
        forall|i: int|
            0 <= i < old(vec)@.len() ==> #[trigger] final(vec)@[i]@ == padded_to(
                old(vec)@[i]@,
                max_x_len as nat,
                padded_value,
            ),
{
    let n = vec.len();
    let mut i: usize = 0;
    while i < n
        invariant
            0 <= i <= n,
            n == old(vec)@.len(),
            vec@.len() == n,
            forall|k: int| 0 <= k < i ==> #[trigger] vec@[k]@ == padded_to(old(vec)@[k]@, max_x_len as nat, padded_value),
            forall|k: int| i <= k < n ==> #[trigger] vec@[k] == old(vec)@[k],
        decreases n - i,
    {
        let mut row: Vec<T> = Vec::new();
        vec.set_and_swap(i, &mut row);
        let ghost initial = row@;
        while row.len() < max_x_len
            invariant
                initial.len() <= row@.len(),
                row@.len() < max_x_len ==> row@ == initial + Seq::new((row@.len() - initial.len()) as nat, |j: int| padded_value),
                row@.len() >= max_x_len ==> row@ == padded_to(initial, max_x_len as nat, padded_value),
            decreases max_x_len - row@.len(),
        {
            let ghost before = row@;
            row.push(padded_value);
            assert(row@ =~= initial + Seq::new((row@.len() - initial.len()) as nat, |j: int| padded_value));
        }
        vec.set_and_swap(i, &mut row);
        i = i + 1;
    }
}

/// The number of columns a grid built from `rows` has: the length of the
/// first row, or zero when there are no rows.
pub open spec fn first_row_len(rows: Seq<Seq<Tile>>) -> nat {
    if rows.len() == 0 { 0 } else { rows[0].len() }
}

/// Builds a grid from rows of tiles: as many rows as given, as many columns as
/// the first row has, and the cells of all rows one after the other.
pub fn vec_to_array(vec: &Vec<Vec<Tile>>) -> (grid: TileGrid)
    requires
        rows_view(vec@).flatten().len() == vec@.len() * first_row_len(rows_view(vec@)),
        vec@.len() * first_row_len(rows_view(vec@)) <= isize::MAX,
        vec@.len() <= isize::MAX,
    ensures
        tile_grid_cells(grid) == rows_view(vec@).flatten(),
        tile_grid_shape(grid) == (vec@.len(), first_row_len(rows_view(vec@))),
{
    if vec.len() == 0 {
        assert(rows_view(vec@) =~= Seq::<Seq<Tile>>::empty());
        let grid = tile_grid_from_cells(0, 0, Vec::new());
        return grid.unwrap();
    }
    let total_rows = vec.len();
    let total_columns = vec[0].len();
    let mut data: Vec<Tile> = Vec::new();
    let mut i: usize = 0;
    while i < total_rows
        invariant
            0 <= i <= total_rows,
            total_rows == vec@.len(),
            data@ == rows_view(vec@).take(i as int).flatten(),
        decreases total_rows - i,
    {
        let ghost before = data@;
        data.extend_from_slice(vec[i].as_slice());
        proof {
            assert(rows_view(vec@).take(i + 1) == rows_view(vec@).take(i as int).push(vec@[i as int]@));
            rows_view(vec@).take(i as int).lemma_flatten_push(vec@[i as int]@);
        }
        i = i + 1;
    }
    assert(rows_view(vec@).take(total_rows as int) == rows_view(vec@));
    assert(total_columns == first_row_len(rows_view(vec@)));
    assert(total_columns <= total_rows * total_columns) by (nonlinear_arith)
        requires
            total_rows >= 1,
    ;
    let grid = tile_grid_from_cells(total_rows, total_columns, data);
    grid.unwrap()
}

/// The rows of tiles a map file describes, each padded with empty space to
/// the length of the longest row.
pub open spec fn map_rows(chars: Seq<char>) -> Seq<Seq<Tile>> {
    let s = scan_map_chars(chars);
    s.rows.map_values(|r: Seq<Tile>| padded_to(r, s.width, Tile::EmptySpace))
}

/// The number of rows and columns of the map a map file describes.
pub open spec fn map_shape(chars: Seq<char>) -> (nat, nat) {
    (scan_map_chars(chars).rows.len(), scan_map_chars(chars).width)
}

/// Reading a map file keeps every finished row within the recorded width,
/// records a width of zero while no row is finished, and never produces more
/// rows, columns or row cells than characters read.
pub proof fn lemma_scan_bounds(chars: Seq<char>)
    ensures
        forall|i: int| 0 <= i < scan_map_chars(chars).rows.len() ==> #[trigger] scan_map_chars(chars).rows[i].len() <= scan_map_chars(chars).width,
        scan_map_chars(chars).rows.len() == 0 ==> scan_map_chars(chars).width == 0,
        scan_map_chars(chars).rows.len() <= chars.len(),
        scan_map_chars(chars).width <= chars.len(),
        scan_map_chars(chars).row.len() == scan_map_chars(chars).x,
        scan_map_chars(chars).x <= chars.len(),
        scan_map_chars(chars).y <= chars.len(),
    decreases chars.len(),
{
    if chars.len() > 0 {
        lemma_scan_bounds(chars.drop_last());
    }
}

/// Flattening rows that all have `width` cells gives `rows.len() * width` cells.
pub proof fn lemma_uniform_flatten_len(rows: Seq<Seq<Tile>>, width: nat)
    requires
        forall|i: int| 0 <= i < rows.len() ==> #[trigger] rows[i].len() == width,
    ensures
        rows.flatten().len() == rows.len() * width,
    decreases rows.len(),
{
    if rows.len() > 0 {
        let init = rows.drop_last();
        lemma_uniform_flatten_len(init, width);
        assert(init.push(rows.last()) == rows);
        init.lemma_flatten_push(rows.last());
        assert(rows.len() * width == init.len() * width + width) by (nonlinear_arith)
            requires
                rows.len() == init.len() + 1,
        ;
    }
}

/// In the cells of rows that all have `width` cells, row `y` and column `x`
/// is cell `y * width + x`.
pub proof fn lemma_uniform_flatten_index(rows: Seq<Seq<Tile>>, width: nat, y: int, x: int)
    requires
        forall|i: int| 0 <= i < rows.len() ==> #[trigger] rows[i].len() == width,
        0 <= y < rows.len(),
        0 <= x < width,
    ensures
        y * width + x < rows.flatten().len(),
        rows.flatten()[y * width + x] == rows[y][x],
    decreases rows.len(),
{
    let init = rows.drop_last();
    assert(init.push(rows.last()) == rows);
    init.lemma_flatten_push(rows.last());
    lemma_uniform_flatten_len(init, width);
    lemma_uniform_flatten_len(rows, width);
    if y < rows.len() - 1 {
        lemma_uniform_flatten_index(init, width, y, x);
        assert(y * width + x < init.len() * width) by (nonlinear_arith)
            requires
                y < init.len(),
                0 <= x < width,
        ;
    } else {
        assert(y * width == init.len() * width) by (nonlinear_arith)
            requires
                y == init.len(),
        ;
    }
}

/// The tile grid a map file describes: one row per line of the file, every
/// row padded with empty space to the length of the longest one.
pub fn process_map_data(data: &str) -> (grid: TileGrid)
    requires
        data@.len() < u32::MAX,
        data@.len() <= isize::MAX,
        map_shape(data@).0 * map_shape(data@).1 <= isize::MAX,
    ensures
        tile_grid_shape(grid) == map_shape(data@),
        tile_grid_cells(grid) == map_rows(data@).flatten(),
{
    let (mut processed_data, max_x_len) = scan_map_rows(data);
    let ghost s = scan_map_chars(data@);
    proof {
        lemma_scan_bounds(data@);
    }
    pad_all_rows(&mut processed_data, max_x_len, Tile::EmptySpace);
    assert(rows_view(processed_data@) =~= map_rows(data@));
    assert forall|i: int| 0 <= i < map_rows(data@).len() implies #[trigger] map_rows(data@)[i].len() == s.width by {
        assert(s.rows[i].len() <= s.width);
    }
    proof {
        lemma_uniform_flatten_len(map_rows(data@), s.width);
    }
    vec_to_array(&processed_data)
}

/// A map of the background tiles of one area of the world.
pub struct BackgroundMap {
    pub data: TileGrid,
}

/// The tile at row `y` and column `x` of a grid, or empty space outside it.
pub open spec fn grid_tile_at(grid: TileGrid, y: int, x: int) -> Tile {
    let (rows, cols) = tile_grid_shape(grid);
    if 0 <= y < rows && 0 <= x < cols {
        tile_grid_cells(grid)[y * cols + x]
    } else {
        Tile::EmptySpace
    }
}

impl BackgroundMap {
    /// The grid of tiles of this map.
    pub fn data(&self) -> (data: &TileGrid)
        ensures
            *data == self.data,
    {
        &self.data
    }

    /// The tile at row `y` and column `x`, or empty space outside the map.
    pub fn get_tile_at(&self, y: u32, x: u32) -> (tile: Tile)
        ensures
            tile == grid_tile_at(self.data, y as int, x as int),
    {
        match tile_grid_get(&self.data, y as usize, x as usize) {
            Some(tile) => tile,
            None => Tile::EmptySpace,
        }
    }
}

/// The map read from a map file holds, at each row and column inside it, the
/// tile the file has there, or empty space where the row was shorter than the
/// longest one; outside it, empty space.
pub proof fn law_parsed_map_tiles(chars: Seq<char>, grid: TileGrid, y: int, x: int)
    requires
        tile_grid_shape(grid) == map_shape(chars),
        tile_grid_cells(grid) == map_rows(chars).flatten(),
    ensures
        (0 <= y < map_shape(chars).0 && 0 <= x < map_shape(chars).1) ==> grid_tile_at(grid, y, x)
            == map_rows(chars)[y][x],
        !(0 <= y < map_shape(chars).0 && 0 <= x < map_shape(chars).1) ==> grid_tile_at(grid, y, x)
            == Tile::EmptySpace,
{
    let s = scan_map_chars(chars);
    lemma_scan_bounds(chars);
    if 0 <= y < map_shape(chars).0 && 0 <= x < map_shape(chars).1 {
        assert forall|i: int| 0 <= i < map_rows(chars).len() implies #[trigger] map_rows(chars)[i].len() == s.width by {
            assert(s.rows[i].len() <= s.width);
        }
        lemma_uniform_flatten_index(map_rows(chars), s.width, y, x);
    }
}

/// Whether a character is anything but a carriage return.
pub open spec fn not_carriage_return() -> spec_fn(char) -> bool {
    |c: char| c != '\r'
}

proof fn lemma_scan_ignores_carriage_returns(chars: Seq<char>)
    ensures
        scan_map_chars(chars.filter(not_carriage_return())) == scan_map_chars(chars),
    decreases chars.len(),
{
    if chars.len() > 0 {
        let init = chars.drop_last();
        let c = chars.last();
        lemma_scan_ignores_carriage_returns(init);
        assert(init.push(c) == chars);
        init.lemma_filter_push(c, not_carriage_return());
        let kept = init.filter(not_carriage_return());
        if c != '\r' {
            assert(kept.push(c).drop_last() == kept);
        }
    }
}

/// Carriage returns in a map file change nothing: the file read with every
/// carriage return taken out gives the same rows and the same shape, so line
/// endings of either kind give the same map.
pub proof fn law_carriage_returns_ignored(chars: Seq<char>)
    ensures
        map_rows(chars.filter(not_carriage_return())) == map_rows(chars),
        map_shape(chars.filter(not_carriage_return())) == map_shape(chars),
{
    lemma_scan_ignores_carriage_returns(chars);
}

/// The length of the longest of `rows`, zero when there are none.
pub open spec fn longest_row(rows: Seq<Seq<Tile>>) -> nat
    decreases rows.len(),
{
    if rows.len() == 0 {
        0
    } else {
        nat_max(longest_row(rows.drop_last()), rows.last().len())
    }
}

proof fn lemma_width_is_longest_row(chars: Seq<char>)
    ensures
        scan_map_chars(chars).width == longest_row(scan_map_chars(chars).rows),
    decreases chars.len(),
{
    if chars.len() > 0 {
        let s = scan_map_chars(chars.drop_last());
        lemma_width_is_longest_row(chars.drop_last());
        let c = chars.last();
        if c == '\n' || c == '%' {
            assert(s.rows.push(s.row).drop_last() == s.rows);
        }
    }
}

/// The map read from a map file has one row per row of the file and as many
/// columns as the longest row has tiles; a shorter row is padded on the right
/// with empty space.
pub proof fn law_parsed_map_padding(chars: Seq<char>, grid: TileGrid, y: int, x: int)
    requires
        tile_grid_shape(grid) == map_shape(chars),
        tile_grid_cells(grid) == map_rows(chars).flatten(),
        0 <= y < scan_map_chars(chars).rows.len(),
        0 <= x < longest_row(scan_map_chars(chars).rows),
    ensures
        tile_grid_shape(grid) == (scan_map_chars(chars).rows.len(), longest_row(scan_map_chars(chars).rows)),
        grid_tile_at(grid, y, x) == if x < scan_map_chars(chars).rows[y].len() {
            scan_map_chars(chars).rows[y][x]
        } else {
            Tile::EmptySpace
        },
{
    lemma_width_is_longest_row(chars);
    law_parsed_map_tiles(chars, grid, y, x);
    let s = scan_map_chars(chars);
    assert(map_rows(chars)[y] == padded_to(s.rows[y], s.width, Tile::EmptySpace));
}

/// Whether a map file is small enough to read: its characters and its grid's
/// cells can be counted.
pub open spec fn map_file_fits(chars: Seq<char>) -> bool {
    &&& chars.len() < u32::MAX
    &&& chars.len() <= isize::MAX
    &&& map_shape(chars).0 * map_shape(chars).1 <= isize::MAX
}

/// Whether `map` is the map read from a file with characters `chars`.
pub open spec fn parsed_from(map: BackgroundMap, chars: Seq<char>) -> bool {
    &&& tile_grid_shape(map.data) == map_shape(chars)
    &&& tile_grid_cells(map.data) == map_rows(chars).flatten()
}

/// Whether the maps match the files one for one: same file names, each map
/// read from its file.
pub open spec fn maps_match_files(maps: Seq<(String, BackgroundMap)>, files: Seq<(String, String)>) -> bool {
    &&& maps.len() == files.len()
    &&& forall|j: int| 0 <= j < files.len() ==> #[trigger] maps[j].0@ == files[j].0@ && parsed_from(maps[j].1, files[j].1@)
}

proof fn lemma_named_maps(maps: Seq<(String, BackgroundMap)>, files: Seq<(String, String)>)
    requires
        maps_match_files(maps, files),
    ensures
        named_by_file(maps).dom() == named_by_file(files).dom(),
        forall|k: Seq<char>| #[trigger] named_by_file(maps).contains_key(k) ==> parsed_from(named_by_file(maps)[k], named_by_file(files)[k]@),
    decreases files.len(),
{
    if files.len() > 0 {
        let (m, f) = (maps.drop_last(), files.drop_last());
        assert forall|j: int| 0 <= j < f.len() implies #[trigger] m[j].0@ == f[j].0@ && parsed_from(m[j].1, f[j].1@) by {
            assert(m[j] == maps[j] && f[j] == files[j]);
        }
        lemma_named_maps(m, f);
        assert(maps.last() == maps[files.len() - 1] && files.last() == files[files.len() - 1]);
        assert(named_by_file(maps).dom() =~= named_by_file(files).dom());
    } else {
        assert(named_by_file(maps).dom() =~= named_by_file(files).dom());
    }
}

/// Every map of the world, read from the map files and keyed by the map names
/// their file names give (the part before the first dot); a later file for the
/// same map overrides an earlier one.
pub fn initialise_all_maps(files: Vec<(String, String)>) -> (all_maps: Vec<(String, BackgroundMap)>)
    requires
        forall|j: int| 0 <= j < files@.len() ==> map_file_fits(#[trigger] files@[j].1@),
    ensures
        distinct_names(all_maps@),
        keyed_view(all_maps@).dom() == named_by_file(files@).dom(),
        forall|k: Seq<char>| #[trigger] keyed_view(all_maps@).contains_key(k) ==> parsed_from(keyed_view(all_maps@)[k], named_by_file(files@)[k]@),
{
    let ghost all = files@;
    let n = files.len();
    let mut maps: Vec<(String, BackgroundMap)> = Vec::new();
    let mut j: usize = 0;
    while j < n
        invariant
            0 <= j <= n,
            n == all.len(),
            maps@.len() == j,
            forall|i: int| 0 <= i < all.len() ==> map_file_fits(#[trigger] all[i].1@),
            all == files@,
            forall|i: int| 0 <= i < j ==> #[trigger] maps@[i].0@ == all[i].0@ && parsed_from(maps@[i].1, all[i].1@),
        decreases n - j,
    {
        let data = process_map_data(files[j].1.as_str());
        maps.push((files[j].0.clone(), BackgroundMap { data }));
        j = j + 1;
    }
    proof {
        lemma_named_maps(maps@, all);
    }
    collect_named(maps)
}

} // verus!
