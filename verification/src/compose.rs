//! Stitching fetched tiles into the map part of a preview.

use vstd::prelude::*;
use crate::canvas::{covered, decoded_view, Canvas, CanvasView, Color, TRANSPARENT};
use crate::tiles::{lemma_index_of_key, lemma_tiles_bounded, GridView, TileGrid};

verus! {

/// Why a map could not be composed.
#[derive(Clone, Copy, Debug, PartialEq, Eq, Structural)]
pub enum FetchError {
    /// The provider gave no tile.
    Unavailable,
    /// The provider's bytes are not a picture of 512 x 512 pixels.
    Malformed,
    /// The number of tiles handed in is not the number the grid lists.
    Incomplete,
}

/// Whether a picture has the size of a tile.
pub open spec fn tile_sized(picture: CanvasView) -> bool {
    picture.width == 512 && picture.height == 512
}

/// The colour of canvas pixel `(px, py)` in the arranged map: the pixel of
/// the tile that holds the world point the canvas pixel shows, or
/// transparent where the canvas reaches beyond the map.
pub open spec fn map_pixel(grid: GridView, pictures: Seq<CanvasView>, px: int, py: int) -> Color {
    let wx = grid.left + px;
    let wy = grid.top + py;
    if grid.has(wx / 512, wy / 512) {
        pictures[grid.index_of(wx / 512, wy / 512)].pixels[(wx % 512, wy % 512)]
    } else {
        TRANSPARENT
    }
}

/// The map of a grid, given the picture of each of its tiles in the order
/// of the grid's listing.
pub open spec fn arranged(grid: GridView, pictures: Seq<CanvasView>) -> CanvasView {
    CanvasView {
        width: grid.width,
        height: grid.height,
        pixels: Map::new(
            |p: (int, int)| 0 <= p.0 < grid.width && 0 <= p.1 < grid.height,
            |p: (int, int)| map_pixel(grid, pictures, p.0, p.1),
        ),
    }
}

/// The views of a list of pictures.
pub open spec fn views_of(pictures: Seq<Canvas>) -> Seq<CanvasView> {
    Seq::new(pictures.len(), |i: int| pictures[i]@)
}

/// What arranging gives: `Incomplete` when the number of pictures is not
/// the number of tiles, `Malformed` when a picture has not the size of a
/// tile, else the map.
pub open spec fn arrange_outcome(grid: GridView, pictures: Seq<CanvasView>) -> Result<
    CanvasView,
    FetchError,
> {
    if pictures.len() != grid.count() {
        Err(FetchError::Incomplete)
    } else if exists|i: int| 0 <= i < pictures.len() && !tile_sized(#[trigger] pictures[i]) {
        Err(FetchError::Malformed)
    } else {
        Ok(arranged(grid, pictures))
    }
}

/// Whether tile `(column, row)` comes before place `(c, r)` of the listing,
/// both counted from the grid's first column and row.
pub open spec fn placed(grid: GridView, column: int, row: int, c: int, r: int) -> bool {
    grid.has(column, row) && (row - grid.first_row < r || (row - grid.first_row == r && column
        - grid.first_column < c))
}

/// The colour of canvas pixel `(px, py)` when the tiles before place
/// `(c, r)` have been copied in.
pub open spec fn partial_pixel(
    grid: GridView,
    pictures: Seq<CanvasView>,
    c: int,
    r: int,
    px: int,
    py: int,
) -> Color {
    let wx = grid.left + px;
    let wy = grid.top + py;
    if placed(grid, wx / 512, wy / 512, c, r) {
        map_pixel(grid, pictures, px, py)
    } else {
        TRANSPARENT
    }
}

/// Arranges the pictures of a grid's tiles on a canvas of the grid's size.
/// `pictures` holds one picture of 512 x 512 pixels for each key of
/// `grid.keys()`, in that order. Each canvas pixel gets the pixel of the
/// tile that holds the world point it shows.
pub fn arrange_tiles(grid: &TileGrid, pictures: &Vec<Canvas>) -> (r: Result<Canvas, FetchError>)
    ensures
        match arrange_outcome(grid@, views_of(pictures@)) {
            Ok(map) => r is Ok && r->Ok_0@ == map,
            Err(e) => r is Err && r->Err_0 == e,
        },
{
    let count = grid.len();
    if pictures.len() != count {
        return Err(FetchError::Incomplete);
    }
    let ghost g = grid@;
    let ghost all = views_of(pictures@);
    let mut k: usize = 0;
    while k < count
        invariant
            k <= count,
            count == pictures@.len(),
            count == grid@.count(),
            all == views_of(pictures@),
            all.len() == count,
            forall|j: int| 0 <= j < k ==> tile_sized(#[trigger] all[j]),
        decreases count - k,
    {
        assert(all[k as int] == pictures@[k as int]@);
        if pictures[k].width() != 512 || pictures[k].height() != 512 {
            assert(!tile_sized(all[k as int]));
            return Err(FetchError::Malformed);
        }
        k += 1;
    }
    let columns = grid.columns();
    let rows = grid.rows();
    let width = grid.width();
    let height = grid.height();
    assert(4 * width * height <= 0x4000_0000) by (nonlinear_arith)
        requires
            width <= 16384,
            height <= 16384,
    ;
    let mut canvas = Canvas::new(width, height);
    let mut i: usize = 0;
    let mut r: u32 = 0;
    while r < rows
        invariant
            g == grid@,
            g.wf(),
            all == views_of(pictures@),
            all.len() == g.count(),
            forall|j: int| 0 <= j < all.len() ==> tile_sized(#[trigger] all[j]),
            columns == g.columns(),
            rows == g.rows(),
            r <= rows,
            i == r * columns,
            canvas@.width == g.width,
            canvas@.height == g.height,
            forall|px: int, py: int|
                0 <= px < g.width && 0 <= py < g.height ==> #[trigger] canvas@.pixels[(px, py)]
                    == partial_pixel(g, all, 0, r as int, px, py),
        decreases rows - r,
    {
        let mut c: u32 = 0;
        while c < columns
            invariant
                g == grid@,
                g.wf(),
                all == views_of(pictures@),
                all.len() == g.count(),
                forall|j: int| 0 <= j < all.len() ==> tile_sized(#[trigger] all[j]),
                columns == g.columns(),
                rows == g.rows(),
                r < rows,
                c <= columns,
                i == r * columns + c,
                canvas@.width == g.width,
                canvas@.height == g.height,
                forall|px: int, py: int|
                    0 <= px < g.width && 0 <= py < g.height ==> #[trigger] canvas@.pixels[(
                        px,
                        py,
                    )] == partial_pixel(g, all, c as int, r as int, px, py),
            decreases columns - c,
        {
            proof {
                lemma_tiles_bounded(g.zoom);
            }
            let column = grid.first_column() + c;
            let row = grid.first_row() + r;
            proof {
                lemma_index_of_key(g, column as int, row as int);
                assert(tile_sized(all[i as int]));
            }
            let (ox, oy) = grid.origin_of(column, row);
            let ghost before = canvas@;
            canvas.blit(&pictures[i], ox, oy);
            assert forall|px: int, py: int|
                0 <= px < g.width && 0 <= py < g.height implies #[trigger] canvas@.pixels[(
                px,
                py,
            )] == partial_pixel(g, all, c + 1, r as int, px, py) by {
                let wx = g.left + px;
                let wy = g.top + py;
                assert(before.pixels[(px, py)] == partial_pixel(
                    g,
                    all,
                    c as int,
                    r as int,
                    px,
                    py,
                ));
                assert(covered(px, py, ox as int, oy as int, 512, 512) <==> (wx / 512 == column
                    && wy / 512 == row));
                if covered(px, py, ox as int, oy as int, 512, 512) {
                    assert(px - ox == wx % 512);
                    assert(py - oy == wy % 512);
                    assert(g.index_of(column as int, row as int) == i);
                }
            }
            c += 1;
            i += 1;
        }
        r += 1;
        assert(r * columns == (r - 1) * columns + columns) by (nonlinear_arith);
        assert forall|px: int, py: int|
            0 <= px < g.width && 0 <= py < g.height implies #[trigger] canvas@.pixels[(px, py)]
            == partial_pixel(g, all, 0, r as int, px, py) by {
            assert(canvas@.pixels[(px, py)] == partial_pixel(
                g,
                all,
                columns as int,
                r - 1,
                px,
                py,
            ));
        }
    }
    proof {
        assert(canvas@ =~= arranged(g, all));
    }
    Ok(canvas)
}

/// What one fetched tile is worth: its picture, or the reason it has none.
/// `None` stands for a fetch that failed.
pub open spec fn tile_picture(tile: Option<Vec<u8>>) -> Result<CanvasView, FetchError> {
    match tile {
        None => Err(FetchError::Unavailable),
        Some(bytes) => match decoded_view(bytes@) {
            Some(picture) => if tile_sized(picture) {
                Ok(picture)
            } else {
                Err(FetchError::Malformed)
            },
            None => Err(FetchError::Malformed),
        },
    }
}

/// The fault of the first tile that has one, going through the listing in
/// order.
pub open spec fn first_fault(tiles: Seq<Option<Vec<u8>>>) -> Option<FetchError>
    decreases tiles.len(),
{
    if tiles.len() == 0 {
        None
    } else {
        match first_fault(tiles.drop_last()) {
            Some(e) => Some(e),
            None => match tile_picture(tiles.last()) {
                Ok(_) => None,
                Err(e) => Some(e),
            },
        }
    }
}

/// The pictures of a listing of fetched tiles.
pub open spec fn pictures_of(tiles: Seq<Option<Vec<u8>>>) -> Seq<CanvasView> {
    Seq::new(tiles.len(), |i: int| tile_picture(tiles[i])->Ok_0)
}

/// What composing gives: the map, or the first fault. The tiles are those
/// of the grid's listing, in its order.
pub open spec fn compose_outcome(grid: GridView, tiles: Seq<Option<Vec<u8>>>) -> Result<
    CanvasView,
    FetchError,
> {
    if tiles.len() != grid.count() {
        Err(FetchError::Incomplete)
    } else {
        match first_fault(tiles) {
            Some(e) => Err(e),
            None => Ok(arranged(grid, pictures_of(tiles))),
        }
    }
}

/// A fault found in a prefix of the listing is the fault of the listing.
pub proof fn lemma_fault_in_prefix(tiles: Seq<Option<Vec<u8>>>, n: int)
    requires
        0 <= n <= tiles.len(),
        first_fault(tiles.take(n)) is Some,
    ensures
        first_fault(tiles) == first_fault(tiles.take(n)),
    decreases tiles.len() - n,
{
    if n == tiles.len() {
        assert(tiles.take(n) =~= tiles);
    } else {
        assert(tiles.take(n + 1).drop_last() =~= tiles.take(n));
        lemma_fault_in_prefix(tiles, n + 1);
    }
}

/// A listing has no fault exactly when every tile has a picture.
pub proof fn lemma_no_fault(tiles: Seq<Option<Vec<u8>>>)
    ensures
        first_fault(tiles) is None <==> forall|i: int|
            0 <= i < tiles.len() ==> (#[trigger] tile_picture(tiles[i])) is Ok,
    decreases tiles.len(),
{
    if tiles.len() > 0 {
        let front = tiles.drop_last();
        lemma_no_fault(front);
        assert forall|i: int| 0 <= i < front.len() implies front[i] == tiles[i] by {}
        if first_fault(tiles) is None {
            assert forall|i: int| 0 <= i < tiles.len() implies (#[trigger] tile_picture(
                tiles[i],
            )) is Ok by {
                if i < front.len() {
                    assert(tile_picture(front[i]) is Ok);
                }
            }
        }
        if forall|i: int| 0 <= i < tiles.len() ==> (#[trigger] tile_picture(tiles[i])) is Ok {
            assert forall|i: int| 0 <= i < front.len() implies (#[trigger] tile_picture(
                front[i],
            )) is Ok by {
                assert(tile_picture(tiles[i]) is Ok);
            }
            assert(tile_picture(tiles[tiles.len() - 1]) is Ok);
        }
    }
}

/// One tile that the provider did not deliver fails the whole map.
pub proof fn lemma_missing_tile_fails(grid: GridView, tiles: Seq<Option<Vec<u8>>>, i: int)
    requires
        0 <= i < tiles.len(),
        tiles[i] is None,
    ensures
        compose_outcome(grid, tiles) is Err,
{
    lemma_no_fault(tiles);
    assert(tile_picture(tiles[i]) is Err);
}

/// Reads one fetched tile.
pub fn read_tile(tile: &Option<Vec<u8>>) -> (r: Result<Canvas, FetchError>)
    ensures
        match tile_picture(*tile) {
            Ok(picture) => r is Ok && r->Ok_0@ == picture,
            Err(e) => r is Err && r->Err_0 == e,
        },
{
    match tile {
        None => Err(FetchError::Unavailable),
        Some(bytes) => match Canvas::decode(bytes.as_slice()) {
            Ok(picture) => {
                if picture.width() == 512 && picture.height() == 512 {
                    Ok(picture)
                } else {
                    Err(FetchError::Malformed)
                }
            },
            Err(_) => Err(FetchError::Malformed),
        },
    }
}

/// Reads a listing of fetched tiles; the first fault ends the reading.
pub fn read_tiles(tiles: &Vec<Option<Vec<u8>>>) -> (r: Result<Vec<Canvas>, FetchError>)
    ensures
        match first_fault(tiles@) {
            Some(e) => r is Err && r->Err_0 == e,
            None => r is Ok && views_of(r->Ok_0@) == pictures_of(tiles@),
        },
{
    let ghost all = tiles@;
    let mut pictures: Vec<Canvas> = Vec::new();
    let mut i: usize = 0;
    assert(all.take(0) =~= Seq::<Option<Vec<u8>>>::empty());
    while i < tiles.len()
        invariant
            all == tiles@,
            i <= all.len(),
            first_fault(all.take(i as int)) is None,
            pictures@.len() == i,
            forall|j: int| 0 <= j < i ==> (#[trigger] pictures@[j])@ == tile_picture(all[j])->Ok_0,
        decreases all.len() - i,
    {
        proof {
            assert(all.take(i + 1).drop_last() =~= all.take(i as int));
            assert(all.take(i + 1).last() == all[i as int]);
        }
        match read_tile(&tiles[i]) {
            Err(e) => {
                proof {
                    lemma_fault_in_prefix(all, i + 1);
                }
                return Err(e);
            },
            Ok(picture) => {
                pictures.push(picture);
            },
        }
        i += 1;
    }
    proof {
        assert(all.take(i as int) =~= all);
        assert(views_of(pictures@) =~= pictures_of(all));
    }
    Ok(pictures)
}

/// Composes the map of a grid from its fetched tiles. `tiles` holds, for
/// each key of `grid.keys()` in order, the bytes that were fetched for it,
/// or `None` where the fetch failed. One fault fails the whole map.
pub fn compose_map(grid: &TileGrid, tiles: &Vec<Option<Vec<u8>>>) -> (r: Result<
    Canvas,
    FetchError,
>)
    ensures
        match compose_outcome(grid@, tiles@) {
            Ok(map) => r is Ok && r->Ok_0@ == map,
            Err(e) => r is Err && r->Err_0 == e,
        },
{
    let count = grid.len();
    if tiles.len() != count {
        return Err(FetchError::Incomplete);
    }
    match read_tiles(tiles) {
        Err(e) => Err(e),
        Ok(pictures) => {
            proof {
                let views = views_of(pictures@);
                lemma_no_fault(tiles@);
                assert(views.len() == pictures_of(tiles@).len());
                assert(views.len() == tiles@.len());
                assert forall|i: int| 0 <= i < views.len() implies tile_sized(
                    #[trigger] views[i],
                ) by {
                    assert(tile_picture(tiles@[i]) is Ok);
                    assert(views[i] == pictures_of(tiles@)[i]);
                }
            }
            arrange_tiles(grid, &pictures)
        },
    }
}

} // verus!
