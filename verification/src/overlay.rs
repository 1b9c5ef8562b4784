//! What is drawn over the map: the pin, the footer band with the logo, and
//! the two lines of text that the host's font rasteriser writes into the
//! band.

use vstd::prelude::*;
use crate::canvas::{overlay_respects_alpha, with_overlay, with_rows, Canvas, CanvasView, WHITE};
use crate::resolver::LocationRecord;
use crate::text::{footer_title, title_of};

verus! {

/// Height in pixels of the footer band.
pub const FOOTER_HEIGHT: u32 = 125;

/// Distance in pixels of the logo from the left edge.
pub const LOGO_LEFT: i64 = 15;

/// Distance in pixels of both text lines from the left edge.
pub const TEXT_LEFT: i64 = 10;

/// Distance in pixels of the title line from the bottom edge.
pub const TITLE_RISE: i64 = 115;

/// Distance in pixels of the subtitle line from the bottom edge.
pub const SUBTITLE_RISE: i64 = 75;

/// Half of `n`, rounded toward zero.
pub open spec fn half(n: int) -> int {
    if n >= 0 {
        n / 2
    } else {
        -((-n) / 2)
    }
}

/// Canvas x of the pin's left edge: the pin is centred horizontally.
pub open spec fn pin_left(canvas_width: nat, pin_width: nat) -> int {
    canvas_width / 2 - pin_width / 2
}

/// Canvas y of the pin's top edge: the pin's lower edge, where its tip is,
/// sits on the middle row of the map region above the footer.
pub open spec fn pin_top(canvas_height: nat, pin_height: nat) -> int {
    half(canvas_height - FOOTER_HEIGHT) - pin_height
}

/// The first row of the footer band.
pub open spec fn footer_top(canvas_height: nat) -> int {
    if canvas_height >= FOOTER_HEIGHT {
        canvas_height - FOOTER_HEIGHT
    } else {
        0
    }
}

/// Canvas y of the logo's top edge: centred in the band, nine pixels low.
pub open spec fn logo_top(canvas_height: nat, logo_height: nat) -> int {
    canvas_height - 62 - logo_height / 2 + 9
}

/// A canvas with the pin drawn.
pub open spec fn with_pin(canvas: CanvasView, pin: CanvasView) -> CanvasView {
    with_overlay(
        canvas,
        pin,
        pin_left(canvas.width, pin.width),
        pin_top(canvas.height, pin.height),
    )
}

/// A canvas with the white footer band and the logo drawn.
pub open spec fn with_footer(canvas: CanvasView, logo: CanvasView) -> CanvasView {
    with_overlay(
        with_rows(canvas, footer_top(canvas.height), canvas.height as int, WHITE),
        logo,
        LOGO_LEFT as int,
        logo_top(canvas.height, logo.height),
    )
}

/// Where the pin goes on a canvas.
pub fn pin_position(canvas_width: u32, canvas_height: u32, pin_width: u32, pin_height: u32) -> (at: (
    i64,
    i64,
))
    ensures
        at.0 == pin_left(canvas_width as nat, pin_width as nat),
        at.1 == pin_top(canvas_height as nat, pin_height as nat),
{
    let x = (canvas_width as i64) / 2 - (pin_width as i64) / 2;
    let y = ((canvas_height as i64) - 125) / 2 - (pin_height as i64);
    (x, y)
}

/// Where the logo goes on a canvas.
pub fn logo_position(canvas_height: u32, logo_height: u32) -> (at: (i64, i64))
    ensures
        at.0 == LOGO_LEFT,
        at.1 == logo_top(canvas_height as nat, logo_height as nat),
{
    (LOGO_LEFT, canvas_height as i64 - (125 / 2) - (logo_height as i64) / 2 + 9)
}

/// Draws the pin over the map. The pin's anchor, the middle of its lower
/// edge, marks the centre of the map region. Where the pin's picture is
/// clear the map shows through unchanged.
pub fn draw_pin(canvas: &mut Canvas, pin: &Canvas)
    ensures
        final(canvas)@ == with_pin(old(canvas)@, pin@),
        overlay_respects_alpha(
            old(canvas)@,
            pin@,
            pin_left(old(canvas)@.width, pin@.width),
            pin_top(old(canvas)@.height, pin@.height),
            final(canvas)@,
        ),
{
    let (x, y) = pin_position(canvas.width(), canvas.height(), pin.width(), pin.height());
    canvas.overlay(pin, x, y);
}

/// One line of text for the footer.
#[derive(Clone, Debug)]
pub struct TextLine {
    pub text: String,
    /// Bold for the title, regular for the subtitle.
    pub bold: bool,
    /// Canvas x of the line's left end.
    pub x: i64,
    /// Canvas y of the line's top.
    pub y: i64,
}

/// The two lines of the footer.
#[derive(Clone, Debug)]
pub struct FooterText {
    /// The location's name, cut if it is long.
    pub title: TextLine,
    /// The display name of the location's kind, never cut.
    pub subtitle: TextLine,
}

impl FooterText {
    /// Whether these are the lines for a location with the given name and
    /// kind on a canvas of the given height.
    pub open spec fn is_for(self, name: Seq<char>, kind: Seq<char>, canvas_height: nat) -> bool {
        &&& self.title.text@ == title_of(name)
        &&& self.title.bold
        &&& self.title.x == TEXT_LEFT
        &&& self.title.y == canvas_height - TITLE_RISE
        &&& self.subtitle.text@ == kind
        &&& !self.subtitle.bold
        &&& self.subtitle.x == TEXT_LEFT
        &&& self.subtitle.y == canvas_height - SUBTITLE_RISE
    }
}

/// The text lines of a location's footer: its title in bold above the
/// display name of its kind, both at the left margin.
pub fn footer_text(record: &LocationRecord, canvas_height: u32) -> (lines: FooterText)
    ensures
        lines.is_for(record.name@, record.kind_display_name@, canvas_height as nat),
        lines.title.y < lines.subtitle.y,
{
    let title = footer_title(record.name.as_str());
    let subtitle = record.kind_display_name.clone();
    FooterText {
        title: TextLine { text: title, bold: true, x: TEXT_LEFT, y: canvas_height as i64 - TITLE_RISE },
        subtitle: TextLine {
            text: subtitle,
            bold: false,
            x: TEXT_LEFT,
            y: canvas_height as i64 - SUBTITLE_RISE,
        },
    }
}

/// Paints the footer band white over the full width and lays the logo
/// into it; the result says what text goes where.
pub fn draw_footer(canvas: &mut Canvas, logo: &Canvas, record: &LocationRecord) -> (lines:
    FooterText)
    ensures
        final(canvas)@ == with_footer(old(canvas)@, logo@),
        overlay_respects_alpha(
            with_rows(
                old(canvas)@,
                footer_top(old(canvas)@.height),
                old(canvas)@.height as int,
                WHITE,
            ),
            logo@,
            LOGO_LEFT as int,
            logo_top(old(canvas)@.height, logo@.height),
            final(canvas)@,
        ),
        lines.is_for(record.name@, record.kind_display_name@, old(canvas)@.height),
{
    let height = canvas.height();
    let band_top = if height >= FOOTER_HEIGHT {
        height - FOOTER_HEIGHT
    } else {
        0
    };
    canvas.fill_rows(band_top, height, WHITE);
    let (x, y) = logo_position(height, logo.height());
    canvas.overlay(logo, x, y);
    footer_text(record, height)
}

} // verus!
