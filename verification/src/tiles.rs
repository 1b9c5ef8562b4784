//! Tile addresses and the grid of tiles that a canvas needs.
//!
//! At zoom `z` the map is a square of `2^z` by `2^z` tiles of 512 pixels.
//! A point of the map is given in world pixels: `x` grows to the east, `y` to
//! the south, both from the top-left corner of tile `(0, 0)`.

use vstd::prelude::*;
use vstd::arithmetic::div_mod::lemma_fundamental_div_mod_converse;
use vstd::arithmetic::power2::{lemma2_to64, lemma_pow2_strictly_increases, lemma_pow2_unfold, pow2};

verus! {

/// Edge length of a tile in pixels.
pub const TILE_SIZE: u32 = 512;

/// Deepest zoom level the grid arithmetic is defined for.
pub const MAX_ZOOM: u32 = 30;

/// Longest canvas edge, in pixels, that a grid is computed for.
pub const MAX_CANVAS_EDGE: u32 = 16384;

/// Address of one tile.
#[derive(Clone, Copy, Debug, PartialEq, Eq, Hash, Structural)]
pub struct TileKey {
    pub zoom: u32,
    pub column: u32,
    pub row: u32,
}

/// Number of tiles along one axis at a zoom level.
pub open spec fn tiles_per_axis(zoom: nat) -> nat {
    pow2(zoom)
}

/// Number of pixels along one axis of the whole map at a zoom level.
pub open spec fn world_size(zoom: nat) -> nat {
    512 * pow2(zoom)
}

/// Where a window of `extent` pixels starts when its middle pixel, the one
/// at offset `extent / 2`, shows world pixel `center`.
pub open spec fn window_start(center: int, extent: nat) -> int {
    center - (extent / 2) as int
}

/// The first tile index that a window starting at `start` needs, clamped to
/// the map.
pub open spec fn first_tile(start: int) -> int {
    if start < 0 {
        0
    } else {
        start / 512
    }
}

/// The last tile index that a window of `extent` pixels starting at `start`
/// needs, clamped to a map of `tiles` tiles.
pub open spec fn last_tile(start: int, extent: nat, tiles: nat) -> int {
    let last_pixel = start + extent - 1;
    if last_pixel / 512 >= tiles {
        tiles - 1
    } else {
        last_pixel / 512
    }
}

/// A rectangle of tiles together with the place of the canvas on the map.
#[verifier::ext_equal]
pub struct GridView {
    pub zoom: nat,
    pub first_column: int,
    pub last_column: int,
    pub first_row: int,
    pub last_row: int,
    /// World x of canvas pixel column 0.
    pub left: int,
    /// World y of canvas pixel row 0.
    pub top: int,
    /// Canvas width in pixels.
    pub width: nat,
    /// Canvas height in pixels.
    pub height: nat,
}

impl GridView {
    /// Whether the rectangle is non-empty, lies on the map and is small
    /// enough to be listed.
    pub open spec fn wf(self) -> bool {
        &&& self.zoom <= MAX_ZOOM
        &&& 0 <= self.first_column <= self.last_column < tiles_per_axis(self.zoom)
        &&& 0 <= self.first_row <= self.last_row < tiles_per_axis(self.zoom)
        &&& -0x1_0000_0000 <= self.left < world_size(self.zoom)
        &&& -0x1_0000_0000 <= self.top < world_size(self.zoom)
        &&& self.last_column - self.first_column < 64
        &&& self.last_row - self.first_row < 64
        &&& 1 <= self.width <= MAX_CANVAS_EDGE
        &&& 1 <= self.height <= MAX_CANVAS_EDGE
    }

    /// Number of tile columns.
    pub open spec fn columns(self) -> int {
        self.last_column - self.first_column + 1
    }

    /// Number of tile rows.
    pub open spec fn rows(self) -> int {
        self.last_row - self.first_row + 1
    }

    /// Number of tiles.
    pub open spec fn count(self) -> int {
        self.rows() * self.columns()
    }

    /// Whether tile `(column, row)` belongs to the rectangle.
    pub open spec fn has(self, column: int, row: int) -> bool {
        self.first_column <= column <= self.last_column && self.first_row <= row
            <= self.last_row
    }

    /// Place of tile `(column, row)` in the row-by-row listing.
    pub open spec fn index_of(self, column: int, row: int) -> int {
        (row - self.first_row) * self.columns() + (column - self.first_column)
    }

    /// The tile at place `index` of the row-by-row listing.
    pub open spec fn key_at(self, index: int) -> TileKey {
        TileKey {
            zoom: self.zoom as u32,
            column: (self.first_column + index % self.columns()) as u32,
            row: (self.first_row + index / self.columns()) as u32,
        }
    }

    /// The row-by-row listing of the rectangle's tiles.
    pub open spec fn keys(self) -> Seq<TileKey> {
        Seq::new(self.count() as nat, |i: int| self.key_at(i))
    }

    /// Canvas x of the left edge of tile column `column`.
    pub open spec fn origin_x(self, column: int) -> int {
        column * 512 - self.left
    }

    /// Canvas y of the top edge of tile row `row`.
    pub open spec fn origin_y(self, row: int) -> int {
        row * 512 - self.top
    }
}

/// The grid for a canvas of `width` x `height` pixels whose middle pixel
/// shows world pixel `(x, y)` at `zoom`.
pub open spec fn grid_for(zoom: nat, x: int, y: int, width: nat, height: nat) -> GridView {
    let left = window_start(x, width);
    let top = window_start(y, height);
    GridView {
        zoom,
        first_column: first_tile(left),
        last_column: last_tile(left, width, tiles_per_axis(zoom)),
        first_row: first_tile(top),
        last_row: last_tile(top, height, tiles_per_axis(zoom)),
        left,
        top,
        width,
        height,
    }
}

/// Whether a grid can be asked for: the zoom is supported, the centre lies
/// on the map and the canvas has pixels.
pub open spec fn grid_defined(zoom: nat, x: int, y: int, width: nat, height: nat) -> bool {
    &&& zoom <= MAX_ZOOM
    &&& 0 <= x < world_size(zoom)
    &&& 0 <= y < world_size(zoom)
    &&& 1 <= width <= MAX_CANVAS_EDGE
    &&& 1 <= height <= MAX_CANVAS_EDGE
}

/// Powers of two up to the deepest zoom stay below `2^31`.
pub proof fn lemma_tiles_bounded(zoom: nat)
    requires
        zoom <= MAX_ZOOM,
    ensures
        1 <= tiles_per_axis(zoom) <= 0x4000_0000,
        512 <= world_size(zoom) <= 0x80_0000_0000,
{
    lemma2_to64();
    if zoom < 30 {
        lemma_pow2_strictly_increases(zoom, 30);
    }
    if zoom > 0 {
        lemma_pow2_strictly_increases(0, zoom);
    }
}

/// Along one axis: the tiles of the grid are on the map, there is at least
/// one, and there are at most as many as the window can touch.
pub proof fn lemma_axis_span(center: int, extent: nat, zoom: nat)
    requires
        zoom <= MAX_ZOOM,
        0 <= center < world_size(zoom),
        1 <= extent <= MAX_CANVAS_EDGE,
    ensures
        ({
            let start = window_start(center, extent);
            let first = first_tile(start);
            let last = last_tile(start, extent, tiles_per_axis(zoom));
            &&& 0 <= first <= center / 512 <= last < tiles_per_axis(zoom)
            &&& last - first < 64
            &&& -0x1_0000_0000 <= start < world_size(zoom)
        }),
{
    lemma_tiles_bounded(zoom);
}

/// The grid of a defined request is well formed.
pub proof fn lemma_grid_wf(zoom: nat, x: int, y: int, width: nat, height: nat)
    requires
        grid_defined(zoom, x, y, width, height),
    ensures
        grid_for(zoom, x, y, width, height).wf(),
{
    lemma_axis_span(x, width, zoom);
    lemma_axis_span(y, height, zoom);
}

/// The centre of the map view lands on the middle pixel of the canvas.
pub proof fn lemma_center_on_canvas(zoom: nat, x: int, y: int, width: nat, height: nat)
    requires
        grid_defined(zoom, x, y, width, height),
    ensures
        ({
            let grid = grid_for(zoom, x, y, width, height);
            &&& grid.left + (width / 2) as int == x
            &&& grid.top + (height / 2) as int == y
            &&& width / 2 < width
            &&& height / 2 < height
            &&& grid.has(x / 512, y / 512)
        }),
{
    lemma_tiles_bounded(zoom);
}

/// The grid covers the canvas: every canvas pixel that shows a point of the
/// map lies in a tile of the grid.
pub proof fn lemma_grid_covers(
    zoom: nat,
    x: int,
    y: int,
    width: nat,
    height: nat,
    px: int,
    py: int,
)
    requires
        grid_defined(zoom, x, y, width, height),
        0 <= px < width,
        0 <= py < height,
    ensures
        ({
            let grid = grid_for(zoom, x, y, width, height);
            let on_map = 0 <= grid.left + px < world_size(zoom) && 0 <= grid.top + py
                < world_size(zoom);
            on_map <==> grid.has((grid.left + px) / 512, (grid.top + py) / 512)
        }),
{
    lemma_tiles_bounded(zoom);
}

/// The grid is minimal: every column and every row of it holds a pixel of
/// the canvas.
pub proof fn lemma_grid_minimal(
    zoom: nat,
    x: int,
    y: int,
    width: nat,
    height: nat,
    column: int,
    row: int,
)
    requires
        grid_defined(zoom, x, y, width, height),
        grid_for(zoom, x, y, width, height).has(column, row),
    ensures
        ({
            let grid = grid_for(zoom, x, y, width, height);
            exists|px: int, py: int|
                0 <= px < width && 0 <= py < height && #[trigger] covers_pixel(
                    grid,
                    column,
                    row,
                    px,
                    py,
                )
        }),
{
    lemma_tiles_bounded(zoom);
    let grid = grid_for(zoom, x, y, width, height);
    let px = if column * 512 >= grid.left {
        column * 512 - grid.left
    } else {
        0
    };
    let py = if row * 512 >= grid.top {
        row * 512 - grid.top
    } else {
        0
    };
    assert(covers_pixel(grid, column, row, px, py));
}

/// Whether canvas pixel `(px, py)` shows a point of tile `(column, row)`.
pub open spec fn covers_pixel(grid: GridView, column: int, row: int, px: int, py: int) -> bool {
    (grid.left + px) / 512 == column && (grid.top + py) / 512 == row
}

/// In a well-formed grid the listing and the tile coordinates determine
/// each other.
pub proof fn lemma_index_of_key(grid: GridView, column: int, row: int)
    requires
        grid.wf(),
        grid.has(column, row),
    ensures
        0 <= grid.index_of(column, row) < grid.count(),
        grid.key_at(grid.index_of(column, row)) == (TileKey {
            zoom: grid.zoom as u32,
            column: column as u32,
            row: row as u32,
        }),
        grid.count() <= 4096,
{
    let columns = grid.columns();
    let r = row - grid.first_row;
    let c = column - grid.first_column;
    lemma_fundamental_div_mod_converse(grid.index_of(column, row), columns, r, c);
    assert(grid.index_of(column, row) < grid.count()) by (nonlinear_arith)
        requires
            grid.index_of(column, row) == r * columns + c,
            grid.count() == grid.rows() * columns,
            0 <= c < columns,
            0 <= r < grid.rows(),
    ;
    assert(0 <= grid.index_of(column, row)) by (nonlinear_arith)
        requires
            grid.index_of(column, row) == r * columns + c,
            0 <= c < columns,
            0 <= r,
    ;
    assert(grid.count() <= 4096) by (nonlinear_arith)
        requires
            grid.count() == grid.rows() * columns,
            1 <= columns <= 64,
            1 <= grid.rows() <= 64,
    ;
}

/// The tiles of a canvas: which ones, and where each goes on the canvas.
pub struct TileGrid {
    zoom: u32,
    first_column: u32,
    last_column: u32,
    first_row: u32,
    last_row: u32,
    left: i64,
    top: i64,
    width: u32,
    height: u32,
}

impl View for TileGrid {
    type V = GridView;

    closed spec fn view(&self) -> GridView {
        GridView {
            zoom: self.zoom as nat,
            first_column: self.first_column as int,
            last_column: self.last_column as int,
            first_row: self.first_row as int,
            last_row: self.last_row as int,
            left: self.left as int,
            top: self.top as int,
            width: self.width as nat,
            height: self.height as nat,
        }
    }
}

/// `2^zoom` as a machine integer.
pub fn axis_tiles(zoom: u32) -> (n: u64)
    requires
        zoom <= MAX_ZOOM,
    ensures
        n == tiles_per_axis(zoom as nat),
        1 <= n <= 0x4000_0000,
{
    let mut n: u64 = 1;
    let mut i: u32 = 0;
    proof {
        lemma2_to64();
    }
    while i < zoom
        invariant
            i <= zoom <= MAX_ZOOM,
            n == pow2(i as nat),
            1 <= n <= 0x4000_0000,
        decreases zoom - i,
    {
        proof {
            lemma_pow2_unfold((i + 1) as nat);
            lemma_tiles_bounded((i + 1) as nat);
        }
        n = n * 2;
        i += 1;
    }
    n
}

/// One axis of `TileGrid::covering`: window start, first and last tile.
fn axis_span(center: u64, extent: u32, tiles: u64, Ghost(zoom): Ghost<nat>) -> (r: (i64, u32, u32))
    requires
        zoom <= MAX_ZOOM,
        tiles == tiles_per_axis(zoom),
        center < world_size(zoom),
        1 <= extent <= MAX_CANVAS_EDGE,
    ensures
        r.0 == window_start(center as int, extent as nat),
        r.1 == first_tile(r.0 as int),
        r.2 == last_tile(r.0 as int, extent as nat, tiles as nat),
{
    proof {
        lemma_tiles_bounded(zoom);
        lemma_axis_span(center as int, extent as nat, zoom);
    }
    let start: i64 = center as i64 - (extent / 2) as i64;
    let first: u32 = if start < 0 {
        0
    } else {
        (start / 512) as u32
    };
    let last_pixel: i64 = start + extent as i64 - 1;
    let last: u32 = if last_pixel / 512 >= tiles as i64 {
        (tiles - 1) as u32
    } else {
        (last_pixel / 512) as u32
    };
    (start, first, last)
}

impl TileGrid {
    #[verifier::type_invariant]
    spec fn well_formed(self) -> bool {
        self@.wf()
    }

    /// The grid for a canvas of `width` x `height` pixels whose middle pixel
    /// shows world pixel `(x, y)` at `zoom`. There is none when the zoom is
    /// deeper than `MAX_ZOOM`, the point is off the map, or the canvas is
    /// empty or has an edge longer than `MAX_CANVAS_EDGE`.
    pub fn covering(zoom: u32, x: u64, y: u64, width: u32, height: u32) -> (grid: Option<
        TileGrid,
    >)
        ensures
            grid is Some <==> grid_defined(
                zoom as nat,
                x as int,
                y as int,
                width as nat,
                height as nat,
            ),
            grid is Some ==> grid->0@ == grid_for(
                zoom as nat,
                x as int,
                y as int,
                width as nat,
                height as nat,
            ) && grid->0@.wf(),
    {
        if zoom > MAX_ZOOM || width == 0 || height == 0 || width > MAX_CANVAS_EDGE || height
            > MAX_CANVAS_EDGE {
            return None;
        }
        let tiles = axis_tiles(zoom);
        let world = tiles * 512;
        if x >= world || y >= world {
            return None;
        }
        let (left, first_column, last_column) = axis_span(x, width, tiles, Ghost(zoom as nat));
        let (top, first_row, last_row) = axis_span(y, height, tiles, Ghost(zoom as nat));
        proof {
            lemma_grid_wf(zoom as nat, x as int, y as int, width as nat, height as nat);
        }
        Some(
            TileGrid {
                zoom,
                first_column,
                last_column,
                first_row,
                last_row,
                left,
                top,
                width,
                height,
            },
        )
    }

    /// Zoom level of the grid's tiles.
    pub fn zoom(&self) -> (z: u32)
        ensures
            z == self@.zoom,
    {
        self.zoom
    }

    /// Number of tile columns.
    pub fn columns(&self) -> (n: u32)
        ensures
            n == self@.columns(),
            1 <= n <= 64,
    {
        proof {
            use_type_invariant(self);
        }
        self.last_column - self.first_column + 1
    }

    /// Number of tile rows.
    pub fn rows(&self) -> (n: u32)
        ensures
            n == self@.rows(),
            1 <= n <= 64,
    {
        proof {
            use_type_invariant(self);
        }
        self.last_row - self.first_row + 1
    }

    /// Number of tiles.
    pub fn len(&self) -> (n: usize)
        ensures
            n == self@.count(),
            1 <= n <= 4096,
            self@.wf(),
    {
        proof {
            use_type_invariant(self);
        }
        let rows = self.rows();
        let columns = self.columns();
        assert(1 <= rows * columns <= 4096) by (nonlinear_arith)
            requires
                1 <= rows <= 64,
                1 <= columns <= 64,
        ;
        (rows * columns) as usize
    }

    /// Canvas width in pixels.
    pub fn width(&self) -> (v: u32)
        ensures
            v == self@.width,
            1 <= v <= MAX_CANVAS_EDGE,
    {
        proof {
            use_type_invariant(self);
        }
        self.width
    }

    /// Canvas height in pixels.
    pub fn height(&self) -> (v: u32)
        ensures
            v == self@.height,
            1 <= v <= MAX_CANVAS_EDGE,
    {
        proof {
            use_type_invariant(self);
        }
        self.height
    }

    /// Index of the leftmost tile column.
    pub fn first_column(&self) -> (v: u32)
        ensures
            v == self@.first_column,
    {
        self.first_column
    }

    /// Index of the topmost tile row.
    pub fn first_row(&self) -> (v: u32)
        ensures
            v == self@.first_row,
    {
        self.first_row
    }

    /// World x of the canvas's left edge.
    pub fn left(&self) -> (v: i64)
        ensures
            v == self@.left,
    {
        self.left
    }

    /// World y of the canvas's top edge.
    pub fn top(&self) -> (v: i64)
        ensures
            v == self@.top,
    {
        self.top
    }

    /// Whether tile `(column, row)` belongs to the grid.
    pub fn has(&self, column: u32, row: u32) -> (b: bool)
        ensures
            b == self@.has(column as int, row as int),
    {
        self.first_column <= column && column <= self.last_column && self.first_row <= row && row
            <= self.last_row
    }

    /// Where on the canvas the top-left corner of tile `(column, row)`
    /// goes; negative when the tile starts left of or above the canvas.
    pub fn origin_of(&self, column: u32, row: u32) -> (origin: (i64, i64))
        requires
            self@.has(column as int, row as int),
        ensures
            origin.0 == self@.origin_x(column as int),
            origin.1 == self@.origin_y(row as int),
    {
        proof {
            use_type_invariant(self);
            lemma_tiles_bounded(self@.zoom);
        }
        (column as i64 * 512 - self.left, row as i64 * 512 - self.top)
    }

    /// The tiles of the grid, row by row from the top, each row from the
    /// left.
    pub fn keys(&self) -> (keys: Vec<TileKey>)
        ensures
            keys@ == self@.keys(),
            keys@.len() == self@.count(),
    {
        proof {
            use_type_invariant(self);
        }
        let ghost grid = self@;
        let columns = self.columns();
        let rows = self.rows();
        let mut keys: Vec<TileKey> = Vec::new();
        let mut r: u32 = 0;
        while r < rows
            invariant
                grid == self@,
                grid.wf(),
                columns == grid.columns(),
                rows == grid.rows(),
                r <= rows,
                keys@.len() == r * columns,
                forall|i: int| 0 <= i < keys@.len() ==> keys@[i] == grid.key_at(i),
            decreases rows - r,
        {
            let mut c: u32 = 0;
            while c < columns
                invariant
                    grid == self@,
                    grid.wf(),
                    columns == grid.columns(),
                    rows == grid.rows(),
                    r < rows,
                    c <= columns,
                    keys@.len() == r * columns + c,
                    forall|i: int| 0 <= i < keys@.len() ==> keys@[i] == grid.key_at(i),
                decreases columns - c,
            {
                proof {
                    lemma_index_of_key(grid, grid.first_column + c, grid.first_row + r);
                }
                keys.push(
                    TileKey {
                        zoom: self.zoom,
                        column: self.first_column + c,
                        row: self.first_row + r,
                    },
                );
                c += 1;
            }
            r += 1;
            assert(r * columns == (r - 1) * columns + columns) by (nonlinear_arith);
        }
        assert(keys@ =~= grid.keys());
        keys
    }
}

} // verus!
