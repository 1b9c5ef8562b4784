//! From fetched tiles to the finished picture: map, pin, footer.

use vstd::prelude::*;
use crate::canvas::{decoded_view, encoded_png, Canvas, CanvasView};
use crate::compose::{compose_map, compose_outcome, FetchError};
use crate::format::PreviewFormat;
use crate::overlay::{draw_footer, draw_pin, with_footer, with_pin, FooterText};
use crate::resolver::LocationRecord;
use crate::tiles::{grid_defined, grid_for, GridView, TileGrid};

verus! {

/// The pictures that every preview uses, decoded once.
pub struct Assets {
    /// The pin that marks the location.
    pub pin: Canvas,
    /// The logo in the footer.
    pub logo: Canvas,
    /// The PNG file sent when a preview cannot be rendered.
    pub default_image: Vec<u8>,
}

/// Which of the bundled pictures is unusable.
#[derive(Clone, Copy, Debug, PartialEq, Eq, Structural)]
pub enum AssetError {
    Pin,
    Logo,
    DefaultImage,
}

/// What loading the assets comes to: the first unusable picture, or none.
/// The default image is usable if it decodes and can be written as PNG.
pub open spec fn asset_fault(pin: Seq<u8>, logo: Seq<u8>, card: Seq<u8>) -> Option<AssetError> {
    if decoded_view(pin) is None {
        Some(AssetError::Pin)
    } else if decoded_view(logo) is None {
        Some(AssetError::Logo)
    } else if decoded_view(card) is None || encoded_png(decoded_view(card)->0) is None {
        Some(AssetError::DefaultImage)
    } else {
        None
    }
}

impl Assets {
    /// Decodes the bundled pictures. The default image is decoded and
    /// written out again as PNG, so that what is sent later is known to be
    /// a PNG file.
    pub fn load(pin: &[u8], logo: &[u8], card: &[u8]) -> (r: Result<Assets, AssetError>)
        ensures
            match asset_fault(pin@, logo@, card@) {
                Some(e) => r is Err && r->Err_0 == e,
                None => r is Ok && r->Ok_0.pin@ == decoded_view(pin@)->0 && r->Ok_0.logo@
                    == decoded_view(logo@)->0 && Some(r->Ok_0.default_image@) == encoded_png(
                    decoded_view(card@)->0,
                ),
            },
    {
        let pin = match Canvas::decode(pin) {
            Ok(picture) => picture,
            Err(_) => {
                return Err(AssetError::Pin);
            },
        };
        let logo = match Canvas::decode(logo) {
            Ok(picture) => picture,
            Err(_) => {
                return Err(AssetError::Logo);
            },
        };
        let card = match Canvas::decode(card) {
            Ok(picture) => picture,
            Err(_) => {
                return Err(AssetError::DefaultImage);
            },
        };
        match card.encode_png() {
            Ok(default_image) => Ok(Assets { pin, logo, default_image }),
            Err(_) => Err(AssetError::DefaultImage),
        }
    }
}

/// The grid of a preview: the canvas has the size of the format.
pub fn preview_grid(format: PreviewFormat, zoom: u32, x: u64, y: u64) -> (grid: Option<TileGrid>)
    ensures
        grid is Some <==> grid_defined(
            zoom as nat,
            x as int,
            y as int,
            format.spec_width(),
            format.spec_height(),
        ),
        grid is Some ==> grid->0@ == grid_for(
            zoom as nat,
            x as int,
            y as int,
            format.spec_width(),
            format.spec_height(),
        ) && grid->0@.wf(),
{
    TileGrid::covering(zoom, x, y, format.width(), format.height())
}

/// The picture before the text is written: the map with the pin over it
/// and the footer band with the logo below, or the fault of the map.
pub open spec fn base_image(
    grid: GridView,
    tiles: Seq<Option<Vec<u8>>>,
    pin: CanvasView,
    logo: CanvasView,
) -> Result<CanvasView, FetchError> {
    match compose_outcome(grid, tiles) {
        Ok(map) => Ok(with_footer(with_pin(map, pin), logo)),
        Err(e) => Err(e),
    }
}

/// Whatever the tiles hold, a preview that renders has the size of its
/// format: 1200 x 630 for open graph, 1200 x 1200 for square.
pub proof fn lemma_preview_size(
    format: PreviewFormat,
    zoom: nat,
    x: int,
    y: int,
    tiles: Seq<Option<Vec<u8>>>,
    pin: CanvasView,
    logo: CanvasView,
)
    ensures
        ({
            let grid = grid_for(zoom, x, y, format.spec_width(), format.spec_height());
            base_image(grid, tiles, pin, logo) matches Ok(picture) ==> {
                &&& picture.width == 1200
                &&& format == PreviewFormat::OpenGraph ==> picture.height == 630
                &&& format == PreviewFormat::Square ==> picture.height == 1200
            }
        }),
{
}

/// Renders everything but the text: composes the map from the fetched
/// tiles, draws the pin, the footer band and the logo. The lines that come
/// back are for the host's font rasteriser to write onto the canvas.
pub fn render_base(
    grid: &TileGrid,
    tiles: &Vec<Option<Vec<u8>>>,
    assets: &Assets,
    record: &LocationRecord,
) -> (r: Result<(Canvas, FooterText), FetchError>)
    ensures
        match base_image(grid@, tiles@, assets.pin@, assets.logo@) {
            Ok(picture) => r is Ok && r->Ok_0.0@ == picture && r->Ok_0.1.is_for(
                record.name@,
                record.kind_display_name@,
                grid@.height,
            ),
            Err(e) => r is Err && r->Err_0 == e,
        },
{
    match compose_map(grid, tiles) {
        Ok(canvas) => {
            let mut canvas = canvas;
            draw_pin(&mut canvas, &assets.pin);
            let lines = draw_footer(&mut canvas, &assets.logo, record);
            Ok((canvas, lines))
        },
        Err(e) => Err(e),
    }
}

/// The body of an image response: the PNG file of the canvas, or `None`
/// where the canvas has none.
pub fn encode_preview(canvas: &Canvas) -> (body: Option<Vec<u8>>)
    ensures
        match encoded_png(canvas@) {
            Some(bytes) => body is Some && body->0@ == bytes,
            None => body is None,
        },
{
    match canvas.encode_png() {
        Ok(bytes) => Some(bytes),
        Err(_) => None,
    }
}

/// Rendering is a function of its inputs: the same grid, tiles and assets
/// give the same picture, and the same picture gives the same file.
pub proof fn lemma_render_repeatable(
    grid: GridView,
    tiles: Seq<Option<Vec<u8>>>,
    pin: CanvasView,
    logo: CanvasView,
    first: CanvasView,
    second: CanvasView,
)
    requires
        base_image(grid, tiles, pin, logo) == Ok::<CanvasView, FetchError>(first),
        base_image(grid, tiles, pin, logo) == Ok::<CanvasView, FetchError>(second),
    ensures
        first == second,
        encoded_png(first) == encoded_png(second),
{
}

} // verus!
