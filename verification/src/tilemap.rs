//! The tile grid and its construction from a textual map description.
//!
//! A map is text with one row per line. Every character of a row is a
//! cell: `#` blocks movement, `~` may start an encounter, anything else is
//! open ground. Rows may differ in length. A line ends at a line feed; a
//! carriage return directly before that line feed belongs to the line end.

use vstd::prelude::*;
use crate::geometry::Vec2;
use crate::TILE_SIZE;

verus! {

/// What a cell means for movement and encounters.
#[derive(Clone, Copy, Debug, PartialEq, Eq, Structural)]
pub enum TileKind {
    Open,
    Blocking,
    Encounter,
}

/// Why no map could be built.
#[derive(Clone, Copy, Debug, PartialEq, Eq, Structural)]
pub enum MapLoadError {
    /// The map resource could not be opened or read.
    Unreadable,
    /// A cell lies beyond the largest grid index.
    TooLarge,
}

/// One cell of the grid.
#[derive(Clone, Copy, Debug, PartialEq, Eq, Structural)]
pub struct Tile {
    /// Column, counted from the left, starting at zero.
    pub grid_x: u32,
    /// Row, counted from the top, starting at zero.
    pub grid_y: u32,
    pub kind: TileKind,
    /// The character the cell was written with.
    pub glyph: char,
}

/// The meaning of a map character.
pub open spec fn kind_of(glyph: char) -> TileKind {
    if glyph == '#' {
        TileKind::Blocking
    } else if glyph == '~' {
        TileKind::Encounter
    } else {
        TileKind::Open
    }
}

/// Classifies a map character.
pub fn classify(glyph: char) -> (kind: TileKind)
    ensures
        kind == kind_of(glyph),
{
    if glyph == '#' {
        TileKind::Blocking
    } else if glyph == '~' {
        TileKind::Encounter
    } else {
        TileKind::Open
    }
}

/// The centre of the cell in column `grid_x` and row `grid_y`: columns
/// grow to the right, rows grow downward, which is toward smaller `y`.
pub open spec fn cell_center(grid_x: int, grid_y: int) -> (int, int) {
    (grid_x * TILE_SIZE, -(grid_y * TILE_SIZE))
}

impl Tile {
    /// The cell at column `col` and row `row` written with `glyph`, unless
    /// an index is too large for the grid.
    pub fn new(col: usize, row: usize, glyph: char) -> (made: Result<Tile, MapLoadError>)
        ensures
            (col <= u32::MAX && row <= u32::MAX) ==> made == Ok::<Tile, MapLoadError>(
                Tile { grid_x: col as u32, grid_y: row as u32, kind: kind_of(glyph), glyph },
            ),
            !(col <= u32::MAX && row <= u32::MAX) ==> made == Err::<Tile, MapLoadError>(
                MapLoadError::TooLarge,
            ),
    {
        if col > 0xffff_ffff || row > 0xffff_ffff {
            return Err(MapLoadError::TooLarge);
        }
        Ok(Tile { grid_x: col as u32, grid_y: row as u32, kind: classify(glyph), glyph })
    }

    /// The centre of the tile in world units.
    pub open spec fn center(self) -> Vec2 {
        Vec2 {
            x: cell_center(self.grid_x as int, self.grid_y as int).0 as i64,
            y: cell_center(self.grid_x as int, self.grid_y as int).1 as i64,
        }
    }

    /// Computes the centre of the tile in world units.
    pub fn world_position(&self) -> (center: Vec2)
        ensures
            center == self.center(),
            (center.x as int, center.y as int) == cell_center(
                self.grid_x as int,
                self.grid_y as int,
            ),
    {
        let x: i64 = self.grid_x as i64 * TILE_SIZE;
        let y: i64 = -(self.grid_y as i64 * TILE_SIZE);
        Vec2 { x, y }
    }
}

/// Whether the character at index `i` is part of a line end.
pub open spec fn is_line_end(text: Seq<char>, i: int) -> bool {
    text[i] == '\n' || (text[i] == '\r' && i + 1 < text.len() && text[i + 1] == '\n')
}

/// Whether the character at index `i` is a cell of the grid.
pub open spec fn is_cell(text: Seq<char>, i: int) -> bool {
    0 <= i < text.len() && !is_line_end(text, i)
}

/// The row that index `i` lies in: the number of line feeds before it.
pub open spec fn row_of(text: Seq<char>, i: int) -> nat
    decreases i,
{
    if i <= 0 {
        0
    } else if text[i - 1] == '\n' {
        row_of(text, i - 1) + 1
    } else {
        row_of(text, i - 1)
    }
}

/// The column that index `i` lies in: its distance from the line start.
pub open spec fn col_of(text: Seq<char>, i: int) -> nat
    decreases i,
{
    if i <= 0 || text[i - 1] == '\n' {
        0
    } else {
        col_of(text, i - 1) + 1
    }
}

/// The number of cells among the first `i` characters.
pub open spec fn cells_before(text: Seq<char>, i: int) -> nat
    decreases i,
{
    if i <= 0 {
        0
    } else if is_line_end(text, i - 1) {
        cells_before(text, i - 1)
    } else {
        cells_before(text, i - 1) + 1
    }
}

/// Whether every cell of `text` has a column and a row that the grid can
/// index.
pub open spec fn fits_grid(text: Seq<char>) -> bool {
    forall|i: int| #[trigger]
        is_cell(text, i) ==> col_of(text, i) <= u32::MAX && row_of(text, i) <= u32::MAX
}

/// Whether `tile` is the cell that the character at index `i` describes.
pub open spec fn tile_of_char(tile: Tile, text: Seq<char>, i: int) -> bool {
    &&& tile.grid_x == col_of(text, i)
    &&& tile.grid_y == row_of(text, i)
    &&& tile.kind == kind_of(text[i])
    &&& tile.glyph == text[i]
}

/// Whether `tiles` lists the cells of `text` in reading order: the cell
/// written at index `i` stands at the position given by the number of
/// cells before it.
pub open spec fn tiles_of_text(tiles: Seq<Tile>, text: Seq<char>) -> bool {
    &&& tiles.len() == cells_before(text, text.len() as int)
    &&& forall|i: int| #[trigger]
        is_cell(text, i) ==> tile_of_char(tiles[cells_before(text, i) as int], text, i)
}

/// `a` comes before `b` in reading order: in a higher row, or further left
/// in the same row.
pub open spec fn reads_before(a: Tile, b: Tile) -> bool {
    a.grid_y < b.grid_y || (a.grid_y == b.grid_y && a.grid_x < b.grid_x)
}

/// Later indices have at least as many cells before them.
pub proof fn lemma_cells_before_monotone(text: Seq<char>, i: int, j: int)
    requires
        0 <= i <= j,
    ensures
        cells_before(text, i) <= cells_before(text, j),
        i < j && !is_line_end(text, i) ==> cells_before(text, i) < cells_before(text, j),
    decreases j - i,
{
    if i < j {
        lemma_cells_before_monotone(text, i, j - 1);
        if i == j - 1 {
            assert(cells_before(text, i + 1) == cells_before(text, i) + if is_line_end(text, i) {
                0nat
            } else {
                1nat
            });
        }
    }
}

/// Rows and columns never exceed the index they are counted up to.
pub proof fn lemma_place_bounded(text: Seq<char>, i: int)
    requires
        0 <= i,
    ensures
        row_of(text, i) <= i,
        col_of(text, i) <= i,
        cells_before(text, i) <= i,
    decreases i,
{
    if i > 0 {
        lemma_place_bounded(text, i - 1);
    }
}

/// Among the first `n` characters, some cell has exactly `k` cells before
/// it, for every `k` below the number of cells among them.
pub proof fn lemma_cell_with_count(text: Seq<char>, n: int, k: int) -> (i: int)
    requires
        0 <= n <= text.len(),
        0 <= k < cells_before(text, n),
    ensures
        i < n,
        is_cell(text, i),
        cells_before(text, i) == k,
    decreases n,
{
    if !is_line_end(text, n - 1) && cells_before(text, n - 1) == k {
        n - 1
    } else {
        lemma_cell_with_count(text, n - 1, k)
    }
}

/// Whether the tile at position `k` is the tile of some cell of `text`.
pub open spec fn tile_has_cell(tiles: Seq<Tile>, text: Seq<char>, k: int) -> bool {
    exists|i: int| #[trigger]
        is_cell(text, i) && cells_before(text, i) == k && tile_of_char(tiles[k], text, i)
}

/// The tiles that list the cells of a text are those cells, one for one.
/// Every character that is a cell has its tile: in the column and the row
/// the character stands in, of the kind the character means, centred a
/// tile's length further right for every column and a tile's length
/// further down for every row. And every tile is the tile of such a
/// character.
pub proof fn lemma_tiles_are_the_cells(tiles: Seq<Tile>, text: Seq<char>)
    requires
        tiles_of_text(tiles, text),
    ensures
        forall|i: int| #[trigger]
            is_cell(text, i) ==> {
                let tile = tiles[cells_before(text, i) as int];
                &&& 0 <= cells_before(text, i) < tiles.len()
                &&& tile_of_char(tile, text, i)
                &&& tile.center().x == col_of(text, i) * TILE_SIZE
                &&& tile.center().y == -(row_of(text, i) * TILE_SIZE)
            },
        forall|k: int| 0 <= k < tiles.len() ==> #[trigger] tile_has_cell(tiles, text, k),
{
    assert forall|i: int| #[trigger] is_cell(text, i) implies {
        let tile = tiles[cells_before(text, i) as int];
        &&& 0 <= cells_before(text, i) < tiles.len()
        &&& tile_of_char(tile, text, i)
        &&& tile.center().x == col_of(text, i) * TILE_SIZE
        &&& tile.center().y == -(row_of(text, i) * TILE_SIZE)
    } by {
        lemma_cells_before_monotone(text, i, text.len() as int);
        let tile = tiles[cells_before(text, i) as int];
        assert(tile.grid_x * TILE_SIZE == tile.grid_x * 1000);
        assert(tile.grid_y * TILE_SIZE == tile.grid_y * 1000);
    }
    assert forall|k: int| 0 <= k < tiles.len() implies #[trigger] tile_has_cell(
        tiles,
        text,
        k,
    ) by {
        let i = lemma_cell_with_count(text, text.len() as int, k);
        assert(is_cell(text, i) && cells_before(text, i) == k && tile_of_char(tiles[k], text, i));
    }
}

/// The grid: its tiles in reading order, and its extent.
#[derive(Clone, Debug)]
pub struct TileMap {
    tiles: Vec<Tile>,
    width: u64,
    height: u64,
}

impl View for TileMap {
    type V = Seq<Tile>;

    closed spec fn view(&self) -> Seq<Tile> {
        self.tiles@
    }
}

impl TileMap {
    /// The number of columns: one more than the largest column in use.
    pub closed spec fn spec_width(self) -> nat {
        self.width as nat
    }

    /// The number of rows: one more than the largest row in use.
    pub closed spec fn spec_height(self) -> nat {
        self.height as nat
    }

    /// The invariant of a map: tiles stand in reading order, each kind
    /// follows from its glyph, and the extent is the least that holds all
    /// tiles.
    pub open spec fn well_formed(self) -> bool {
        &&& forall|a: int, b: int|
            0 <= a < b < self@.len() ==> reads_before(#[trigger] self@[a], #[trigger] self@[b])
        &&& forall|a: int|
            0 <= a < self@.len() ==> (#[trigger] self@[a]).kind == kind_of(self@[a].glyph)
        &&& forall|a: int|
            0 <= a < self@.len() ==> (#[trigger] self@[a]).grid_x < self.spec_width()
                && self@[a].grid_y < self.spec_height()
        &&& self.spec_width() > 0 ==> exists|a: int|
            0 <= a < self@.len() && (#[trigger] self@[a]).grid_x + 1 == self.spec_width()
        &&& self.spec_height() > 0 ==> exists|a: int|
            0 <= a < self@.len() && (#[trigger] self@[a]).grid_y + 1 == self.spec_height()
    }

    /// In a well-formed map no two tiles share a cell.
    pub proof fn lemma_one_tile_per_cell(self, a: int, b: int)
        requires
            self.well_formed(),
            0 <= a < self@.len(),
            0 <= b < self@.len(),
            self@[a].grid_x == self@[b].grid_x,
            self@[a].grid_y == self@[b].grid_y,
        ensures
            a == b,
    {
        if a < b {
            assert(reads_before(self@[a], self@[b]));
        } else if b < a {
            assert(reads_before(self@[b], self@[a]));
        }
    }

    /// The map without any tile.
    pub fn empty() -> (map: TileMap)
        ensures
            map@.len() == 0,
            map.spec_width() == 0,
            map.spec_height() == 0,
            map.well_formed(),
    {
        TileMap { tiles: Vec::new(), width: 0, height: 0 }
    }

    /// The number of tiles.
    pub fn len(&self) -> (n: usize)
        ensures
            n == self@.len(),
    {
        self.tiles.len()
    }

    /// The number of columns.
    pub fn width(&self) -> (w: u64)
        ensures
            w == self.spec_width(),
    {
        self.width
    }

    /// The number of rows.
    pub fn height(&self) -> (h: u64)
        ensures
            h == self.spec_height(),
    {
        self.height
    }

    /// The tile at `index` in reading order.
    pub fn get(&self, index: usize) -> (tile: Option<Tile>)
        ensures
            index < self@.len() ==> tile == Some(self@[index as int]),
            index >= self@.len() ==> tile.is_none(),
    {
        if index < self.tiles.len() {
            Some(self.tiles[index])
        } else {
            None
        }
    }
}

/// The characters of `text`, one by one.
fn chars_of(text: &str) -> (chars: Vec<char>)
    ensures
        chars@ == text@,
{
    let mut chars: Vec<char> = Vec::new();
    for c in it: text.chars()
        invariant
            it.seq() == text@,
            chars@ == it.seq().take(it.index()),
    {
        chars.push(c);
    }
    chars
}

/// Builds the map that `text` describes.
///
/// Succeeds exactly when every cell fits the grid; the tiles then list the
/// cells of `text` in reading order.
pub fn parse_map(text: &str) -> (made: Result<TileMap, MapLoadError>)
    ensures
        fits_grid(text@) ==> (made matches Ok(map) && tiles_of_text(map@, text@)
            && map.well_formed()),
        !fits_grid(text@) ==> (made matches Err(e) && e == MapLoadError::TooLarge),
{
    let chars = chars_of(text);
    let ghost t = text@;
    let n: usize = chars.len();
    let mut tiles: Vec<Tile> = Vec::new();
    let mut width: u64 = 0;
    let mut height: u64 = 0;
    let mut row: usize = 0;
    let mut col: usize = 0;
    let mut i: usize = 0;
    while i < n
        invariant
            t == text@,
            chars@ == t,
            n == t.len(),
            i <= n,
            row == row_of(t, i as int),
            col == col_of(t, i as int),
            tiles@.len() == cells_before(t, i as int),
            forall|k: int| #[trigger]
                is_cell(t, k) && k < i ==> tile_of_char(tiles@[cells_before(t, k) as int], t, k),
            forall|k: int| #[trigger]
                is_cell(t, k) && k < i ==> col_of(t, k) <= u32::MAX && row_of(t, k) <= u32::MAX,
            forall|a: int, b: int|
                0 <= a < b < tiles@.len() ==> reads_before(#[trigger] tiles@[a], #[trigger] tiles@[b]),
            forall|a: int|
                0 <= a < tiles@.len() ==> (#[trigger] tiles@[a]).grid_y < row || (tiles@[a].grid_y
                    == row && tiles@[a].grid_x < col),
            forall|a: int|
                0 <= a < tiles@.len() ==> (#[trigger] tiles@[a]).kind == kind_of(tiles@[a].glyph),
            forall|a: int|
                0 <= a < tiles@.len() ==> (#[trigger] tiles@[a]).grid_x < width && tiles@[a].grid_y
                    < height,
            width > 0 ==> exists|a: int|
                0 <= a < tiles@.len() && (#[trigger] tiles@[a]).grid_x + 1 == width,
            height > 0 ==> exists|a: int|
                0 <= a < tiles@.len() && (#[trigger] tiles@[a]).grid_y + 1 == height,
            width <= 0x1_0000_0000,
            height <= 0x1_0000_0000,
        decreases n - i,
    {
        let c: char = chars[i];
        proof {
            lemma_place_bounded(t, i as int);
        }
        let line_end: bool = c == '\n' || (c == '\r' && i + 1 < n && chars[i + 1] == '\n');
        assert(line_end == is_line_end(t, i as int));
        if line_end {
            if c == '\n' {
                row = row + 1;
                col = 0;
            } else {
                col = col + 1;
            }
        } else {
            assert(is_cell(t, i as int));
            let tile = match Tile::new(col, row, c) {
                Ok(tile) => tile,
                Err(e) => {
                    return Err(e);
                },
            };
            let ghost before = tiles@;
            tiles.push(tile);
            if width < tile.grid_x as u64 + 1 {
                width = tile.grid_x as u64 + 1;
            }
            if height < tile.grid_y as u64 + 1 {
                height = tile.grid_y as u64 + 1;
            }
            col = col + 1;
            proof {
                let last = before.len() as int;
                assert(tiles@[last] == tile);
                assert forall|k: int| #[trigger] is_cell(t, k) && k < i + 1 implies tile_of_char(
                    tiles@[cells_before(t, k) as int],
                    t,
                    k,
                ) by {
                    if k < i {
                        lemma_cells_before_monotone(t, k, i as int);
                        assert(tiles@[cells_before(t, k) as int] == before[cells_before(
                            t,
                            k,
                        ) as int]);
                    }
                }
                assert forall|a: int, b: int| 0 <= a < b < tiles@.len() implies reads_before(
                    #[trigger] tiles@[a],
                    #[trigger] tiles@[b],
                ) by {
                    if b < last {
                        assert(tiles@[a] == before[a] && tiles@[b] == before[b]);
                    } else {
                        assert(tiles@[a] == before[a]);
                    }
                }
                assert forall|a: int| 0 <= a < tiles@.len() implies (#[trigger] tiles@[a]).grid_y
                    < row || (tiles@[a].grid_y == row && tiles@[a].grid_x < col) by {
                    if a < last {
                        assert(tiles@[a] == before[a]);
                    }
                }
                assert forall|a: int| 0 <= a < tiles@.len() implies (#[trigger] tiles@[a]).kind
                    == kind_of(tiles@[a].glyph) by {
                    if a < last {
                        assert(tiles@[a] == before[a]);
                    }
                }
                assert forall|a: int| 0 <= a < tiles@.len() implies (#[trigger] tiles@[a]).grid_x
                    < width && tiles@[a].grid_y < height by {
                    if a < last {
                        assert(tiles@[a] == before[a]);
                    }
                }
                if width == tile.grid_x + 1 {
                    assert(tiles@[last].grid_x + 1 == width);
                } else {
                    let w = choose|a: int|
                        0 <= a < before.len() && (#[trigger] before[a]).grid_x + 1 == width;
                    assert(tiles@[w] == before[w]);
                }
                if height == tile.grid_y + 1 {
                    assert(tiles@[last].grid_y + 1 == height);
                } else {
                    let h = choose|a: int|
                        0 <= a < before.len() && (#[trigger] before[a]).grid_y + 1 == height;
                    assert(tiles@[h] == before[h]);
                }
            }
        }
        i = i + 1;
    }
    let map = TileMap { tiles, width, height };
    assert(fits_grid(t));
    assert(tiles_of_text(map@, t));
    Ok(map)
}

/// Builds the map from the text of the map resource, where `None` stands
/// for a resource that could not be read.
pub fn load_map(resource: Option<&str>) -> (made: Result<TileMap, MapLoadError>)
    ensures
        resource.is_none() ==> (made matches Err(e) && e == MapLoadError::Unreadable),
        resource.is_some() && fits_grid(resource.unwrap()@) ==> (made matches Ok(map)
            && tiles_of_text(map@, resource.unwrap()@) && map.well_formed()),
        resource.is_some() && !fits_grid(resource.unwrap()@) ==> (made matches Err(e) && e
            == MapLoadError::TooLarge),
{
    match resource {
        Some(text) => parse_map(text),
        None => Err(MapLoadError::Unreadable),
    }
}

} // verus!
