//! Pixel buffers. The storage is the `image` crate's RGBA buffer; everything
//! this module proves rests on the contracts of the small wrappers below.

use vstd::prelude::*;
use crate::format::PreviewFormat;

verus! {

/// One pixel: red, green, blue, alpha.
pub type Color = (u8, u8, u8, u8);

/// Fully transparent black, the value of a fresh buffer.
pub const TRANSPARENT: Color = (0, 0, 0, 0);

/// Opaque white.
pub const WHITE: Color = (255, 255, 255, 255);

/// The error type of the `image` crate, carried through unread.
#[verifier::external_type_specification]
#[verifier::external_body]
pub struct ExImageError(image::ImageError);

/// An RGBA pixel buffer. Its storage is `image::RgbaImage`, which Verus does
/// not look into: what it holds is named by `image_width`, `image_height`
/// and `image_pixels`.
#[verifier::external_body]
pub struct Canvas {
    img: image::RgbaImage,
}

/// Number of pixel columns of the buffer.
pub uninterp spec fn image_width(c: Canvas) -> nat;

/// Number of pixel rows of the buffer.
pub uninterp spec fn image_height(c: Canvas) -> nat;

/// The pixel stored at each `(x, y)` of the buffer.
pub uninterp spec fn image_pixels(c: Canvas) -> Map<(int, int), (u8, u8, u8, u8)>;

/// What `image`'s alpha blending makes of a pixel `bottom` when `top` is laid
/// over it.
pub uninterp spec fn blended(bottom: (u8, u8, u8, u8), top: (u8, u8, u8, u8)) -> (u8, u8, u8, u8);

/// The picture that `image` reads out of encoded bytes, as width, height and
/// pixels, or `None` where it rejects the bytes.
pub uninterp spec fn decoded_image(bytes: Seq<u8>) -> Option<
    (nat, nat, Map<(int, int), (u8, u8, u8, u8)>),
>;

/// The PNG file that `image` writes for a picture, or `None` where it
/// refuses to encode it.
pub uninterp spec fn png_bytes(
    width: nat,
    height: nat,
    pixels: Map<(int, int), (u8, u8, u8, u8)>,
) -> Option<Seq<u8>>;

/// What a canvas is: its size and the pixels inside it.
#[verifier::ext_equal]
pub struct CanvasView {
    pub width: nat,
    pub height: nat,
    pub pixels: Map<(int, int), Color>,
}

impl CanvasView {
    /// Whether `(x, y)` is a pixel of the canvas.
    pub open spec fn contains(self, x: int, y: int) -> bool {
        0 <= x < self.width && 0 <= y < self.height
    }
}

/// The pixel map cut down to the coordinates inside `width` x `height`.
pub open spec fn pixels_within(
    width: nat,
    height: nat,
    pixels: Map<(int, int), Color>,
) -> Map<(int, int), Color> {
    Map::new(|p: (int, int)| 0 <= p.0 < width && 0 <= p.1 < height, |p: (int, int)| pixels[p])
}

impl View for Canvas {
    type V = CanvasView;

    open spec fn view(&self) -> CanvasView {
        CanvasView {
            width: image_width(*self),
            height: image_height(*self),
            pixels: pixels_within(image_width(*self), image_height(*self), image_pixels(*self)),
        }
    }
}

/// A canvas of the given size with every pixel transparent.
pub open spec fn blank(width: nat, height: nat) -> CanvasView {
    CanvasView {
        width,
        height,
        pixels: Map::new(
            |p: (int, int)| 0 <= p.0 < width && 0 <= p.1 < height,
            |p: (int, int)| TRANSPARENT,
        ),
    }
}

/// `base` with the rows `from <= y < to` painted in one colour.
pub open spec fn with_rows(base: CanvasView, from: int, to: int, color: Color) -> CanvasView {
    CanvasView {
        width: base.width,
        height: base.height,
        pixels: Map::new(
            |p: (int, int)| base.contains(p.0, p.1),
            |p: (int, int)|
                if from <= p.1 < to {
                    color
                } else {
                    base.pixels[p]
                },
        ),
    }
}

/// Whether canvas pixel `(x, y)` lies under a picture of size
/// `width` x `height` whose top-left corner is put at `(left, top)`.
pub open spec fn covered(x: int, y: int, left: int, top: int, width: nat, height: nat) -> bool {
    left <= x < left + width && top <= y < top + height
}

/// `base` with `src` copied over it, the top-left corner of `src` at
/// `(left, top)`; what falls outside `base` is cropped.
pub open spec fn with_copy(base: CanvasView, src: CanvasView, left: int, top: int) -> CanvasView {
    CanvasView {
        width: base.width,
        height: base.height,
        pixels: Map::new(
            |p: (int, int)| base.contains(p.0, p.1),
            |p: (int, int)|
                if covered(p.0, p.1, left, top, src.width, src.height) {
                    src.pixels[(p.0 - left, p.1 - top)]
                } else {
                    base.pixels[p]
                },
        ),
    }
}

/// `base` with `top_image` alpha-blended over it, the top-left corner of
/// `top_image` at `(left, top)`.
pub open spec fn with_overlay(
    base: CanvasView,
    top_image: CanvasView,
    left: int,
    top: int,
) -> CanvasView {
    CanvasView {
        width: base.width,
        height: base.height,
        pixels: Map::new(
            |p: (int, int)| base.contains(p.0, p.1),
            |p: (int, int)|
                if covered(p.0, p.1, left, top, top_image.width, top_image.height) {
                    blended(base.pixels[p], top_image.pixels[(p.0 - left, p.1 - top)])
                } else {
                    base.pixels[p]
                },
        ),
    }
}

/// Whether `after` treats the clear and the solid pixels of `top_image` as
/// an overlay at `(left, top)` on `before` must: under a pixel of
/// alpha 0 the canvas stays as it was, under one of alpha 255 it takes that
/// pixel.
pub open spec fn overlay_respects_alpha(
    before: CanvasView,
    top_image: CanvasView,
    left: int,
    top: int,
    after: CanvasView,
) -> bool {
    forall|x: int, y: int|
        before.contains(x, y) && covered(x, y, left, top, top_image.width, top_image.height) ==> {
            let over = top_image.pixels[(x - left, y - top)];
            &&& over.3 == 0 ==> #[trigger] after.pixels[(x, y)] == before.pixels[(x, y)]
            &&& over.3 == 255 ==> after.pixels[(x, y)] == over
        }
}

/// What decoding `bytes` gives: the picture, or `None` for bytes that are
/// no picture.
pub open spec fn decoded_view(bytes: Seq<u8>) -> Option<CanvasView> {
    match decoded_image(bytes) {
        Some((width, height, pixels)) => Some(
            CanvasView { width, height, pixels: pixels_within(width, height, pixels) },
        ),
        None => None,
    }
}

/// The PNG file of a canvas, or `None` where it has none.
pub open spec fn encoded_png(canvas: CanvasView) -> Option<Seq<u8>> {
    png_bytes(canvas.width, canvas.height, canvas.pixels)
}

/// Why a picture could not be read or written.
#[derive(Clone, Copy, Debug, PartialEq, Eq, Structural)]
pub enum ImageFault {
    /// The bytes are not a picture that can be decoded.
    Malformed,
    /// The canvas cannot be written as PNG.
    Unencodable,
}

/// `image::RgbaImage::new`: a buffer of the given size, every channel zero.
/// It panics when the byte count does not fit, which `requires` rules out.
#[verifier::external_body]
fn raw_new(width: u32, height: u32) -> (c: Canvas)
    requires
        4 * width * height <= isize::MAX,
    ensures
        image_width(c) == width,
        image_height(c) == height,
        forall|x: int, y: int|
            0 <= x < width && 0 <= y < height ==> #[trigger] image_pixels(c)[(x, y)]
                == TRANSPARENT,
{
    Canvas { img: image::RgbaImage::new(width, height) }
}

/// `ImageBuffer::dimensions`: width and height as stored.
#[verifier::external_body]
fn raw_dimensions(c: &Canvas) -> (d: (u32, u32))
    ensures
        d.0 == image_width(*c),
        d.1 == image_height(*c),
{
    c.img.dimensions()
}

/// `ImageBuffer::get_pixel`: the pixel at `(x, y)`. It panics outside the
/// buffer, which `requires` rules out.
#[verifier::external_body]
fn raw_get(c: &Canvas, x: u32, y: u32) -> (p: Color)
    requires
        x < image_width(*c),
        y < image_height(*c),
    ensures
        p == image_pixels(*c)[(x as int, y as int)],
{
    let q = c.img.get_pixel(x, y);
    (q.0[0], q.0[1], q.0[2], q.0[3])
}

/// `ImageBuffer::put_pixel`: stores one pixel and touches nothing else. It
/// panics outside the buffer, which `requires` rules out.
#[verifier::external_body]
fn raw_put(c: &mut Canvas, x: u32, y: u32, p: Color)
    requires
        x < image_width(*old(c)),
        y < image_height(*old(c)),
    ensures
        image_width(*final(c)) == image_width(*old(c)),
        image_height(*final(c)) == image_height(*old(c)),
        image_pixels(*final(c)) == image_pixels(*old(c)).insert((x as int, y as int), p),
{
    c.img.put_pixel(x, y, image::Rgba([p.0, p.1, p.2, p.3]))
}

/// `image::imageops::overlay`: every pixel of `bottom` that lies under `top`
/// becomes the blend of the two; the size and all other pixels stay. The
/// crate's blend returns the bottom pixel where the top one has alpha 0 and
/// the top pixel where it has alpha 255. The crate clips the overlap with
/// saturating sums, which is right for every offset.
#[verifier::external_body]
fn raw_overlay(bottom: &mut Canvas, top: &Canvas, x: i64, y: i64)
    ensures
        image_width(*final(bottom)) == image_width(*old(bottom)),
        image_height(*final(bottom)) == image_height(*old(bottom)),
        forall|px: int, py: int|
            0 <= px < image_width(*old(bottom)) && 0 <= py < image_height(*old(bottom))
                ==> #[trigger] image_pixels(*final(bottom))[(px, py)] == (if covered(
                px,
                py,
                x as int,
                y as int,
                image_width(*top),
                image_height(*top),
            ) {
                blended(
                    image_pixels(*old(bottom))[(px, py)],
                    image_pixels(*top)[(px - x, py - y)],
                )
            } else {
                image_pixels(*old(bottom))[(px, py)]
            }),
        forall|px: int, py: int|
            0 <= px < image_width(*old(bottom)) && 0 <= py < image_height(*old(bottom))
                && covered(px, py, x as int, y as int, image_width(*top), image_height(*top))
                && image_pixels(*top)[(px - x, py - y)].3 == 0 ==> #[trigger] image_pixels(
                *final(bottom),
            )[(px, py)] == image_pixels(*old(bottom))[(px, py)],
        forall|px: int, py: int|
            0 <= px < image_width(*old(bottom)) && 0 <= py < image_height(*old(bottom))
                && covered(px, py, x as int, y as int, image_width(*top), image_height(*top))
                && image_pixels(*top)[(px - x, py - y)].3 == 255 ==> #[trigger] image_pixels(
                *final(bottom),
            )[(px, py)] == image_pixels(*top)[(px - x, py - y)],
{
    image::imageops::overlay(&mut bottom.img, &top.img, x, y)
}

/// `image::load_from_memory`, then `DynamicImage::into_rgba8`: the picture
/// in the bytes as RGBA, or the crate's error. The result depends on the
/// bytes alone and is named by `decoded_image`.
#[verifier::external_body]
fn raw_decode(bytes: &[u8]) -> (r: Result<Canvas, image::ImageError>)
    ensures
        match r {
            Ok(c) => decoded_image(bytes@) == Some(
                (image_width(c), image_height(c), image_pixels(c)),
            ),
            Err(_) => decoded_image(bytes@) is None,
        },
{
    match image::load_from_memory(bytes) {
        Ok(picture) => Ok(Canvas { img: picture.into_rgba8() }),
        Err(e) => Err(e),
    }
}

/// `ImageBuffer::write_to` with the PNG format, into memory: the file's
/// bytes, or the crate's error. The result depends on the size and the
/// pixels alone and is named by `png_bytes`.
#[verifier::external_body]
fn raw_encode_png(c: &Canvas) -> (r: Result<Vec<u8>, image::ImageError>)
    ensures
        match r {
            Ok(bytes) => png_bytes(c@.width, c@.height, c@.pixels) == Some(bytes@),
            Err(_) => png_bytes(c@.width, c@.height, c@.pixels) is None,
        },
{
    let mut out = std::io::Cursor::new(Vec::new());
    match c.img.write_to(&mut out, image::ImageFormat::Png) {
        Ok(()) => Ok(out.into_inner()),
        Err(e) => Err(e),
    }
}

/// The part of `0..limit` that an interval of `len` cells starting at `start`
/// covers, as a half-open range `(from, to)`.
pub open spec fn overlap(start: int, len: nat, limit: nat) -> (int, int) {
    let from = if start < 0 {
        0
    } else if start > limit {
        limit as int
    } else {
        start
    };
    let end = start + len;
    let to = if end < from {
        from
    } else if end > limit {
        limit as int
    } else {
        end
    };
    (from, to)
}

/// A cell of `0..limit` lies in the overlap exactly when the interval
/// covers it.
pub proof fn lemma_overlap_exact(start: int, len: nat, limit: nat, x: int)
    requires
        0 <= x < limit,
    ensures
        overlap(start, len, limit).0 <= x < overlap(start, len, limit).1 <==> start <= x < start
            + len,
        0 <= overlap(start, len, limit).0 <= overlap(start, len, limit).1 <= limit,
{
}

/// Computes `overlap` without overflow, for any start.
pub fn clip_span(start: i64, len: u32, limit: u32) -> (r: (u32, u32))
    ensures
        (r.0 as int, r.1 as int) == overlap(start as int, len as nat, limit as nat),
        r.0 <= r.1 <= limit,
{
    if start > limit as i64 {
        return (limit, limit);
    }
    let from: u32 = if start < 0 {
        0
    } else {
        start as u32
    };
    let end: i64 = start + len as i64;
    let to: u32 = if end < from as i64 {
        from
    } else if end > limit as i64 {
        limit
    } else {
        end as u32
    };
    (from, to)
}

impl Canvas {
    /// A transparent canvas of the given size.
    pub fn new(width: u32, height: u32) -> (c: Canvas)
        requires
            4 * width * height <= isize::MAX,
        ensures
            c@ == blank(width as nat, height as nat),
    {
        let c = raw_new(width, height);
        assert(c@ =~= blank(width as nat, height as nat));
        c
    }

    /// A transparent canvas of the size that `format` prescribes.
    pub fn for_format(format: PreviewFormat) -> (c: Canvas)
        ensures
            c@ == blank(format.spec_width(), format.spec_height()),
            c@.width == 1200,
            format == PreviewFormat::OpenGraph ==> c@.height == 630,
            format == PreviewFormat::Square ==> c@.height == 1200,
    {
        Canvas::new(format.width(), format.height())
    }

    /// Number of pixel columns.
    pub fn width(&self) -> (w: u32)
        ensures
            w == self@.width,
    {
        raw_dimensions(self).0
    }

    /// Number of pixel rows.
    pub fn height(&self) -> (h: u32)
        ensures
            h == self@.height,
    {
        raw_dimensions(self).1
    }

    /// The pixel at `(x, y)`.
    pub fn pixel(&self, x: u32, y: u32) -> (p: Color)
        requires
            self@.contains(x as int, y as int),
        ensures
            p == self@.pixels[(x as int, y as int)],
    {
        raw_get(self, x, y)
    }

    /// The pixel at `(x, y)`, or `None` outside the canvas.
    pub fn pixel_checked(&self, x: u32, y: u32) -> (p: Option<Color>)
        ensures
            p == (if self@.contains(x as int, y as int) {
                Some(self@.pixels[(x as int, y as int)])
            } else {
                None
            }),
    {
        if x < self.width() && y < self.height() {
            Some(raw_get(self, x, y))
        } else {
            None
        }
    }

    /// Stores one pixel; every other pixel and the size stay.
    pub fn put_pixel(&mut self, x: u32, y: u32, color: Color)
        requires
            old(self)@.contains(x as int, y as int),
        ensures
            final(self)@.width == old(self)@.width,
            final(self)@.height == old(self)@.height,
            final(self)@.pixels == old(self)@.pixels.insert((x as int, y as int), color),
    {
        raw_put(self, x, y, color);
        assert(self@.pixels =~= old(self)@.pixels.insert((x as int, y as int), color));
    }

    /// Stores one pixel if `(x, y)` is inside the canvas and says whether it
    /// was.
    pub fn put_pixel_checked(&mut self, x: u32, y: u32, color: Color) -> (stored: bool)
        ensures
            stored == old(self)@.contains(x as int, y as int),
            final(self)@.width == old(self)@.width,
            final(self)@.height == old(self)@.height,
            stored ==> final(self)@.pixels == old(self)@.pixels.insert(
                (x as int, y as int),
                color,
            ),
            !stored ==> final(self)@ == old(self)@,
    {
        if x < self.width() && y < self.height() {
            self.put_pixel(x, y, color);
            true
        } else {
            false
        }
    }

    /// Paints the rows `from <= y < to` in one colour, over the full width.
    pub fn fill_rows(&mut self, from: u32, to: u32, color: Color)
        requires
            from <= to <= old(self)@.height,
        ensures
            final(self)@ == with_rows(old(self)@, from as int, to as int, color),
    {
        let width = self.width();
        let mut y = from;
        assert(self@ =~= with_rows(old(self)@, from as int, from as int, color));
        while y < to
            invariant
                from <= y <= to,
                to <= old(self)@.height,
                width == old(self)@.width,
                self@ == with_rows(old(self)@, from as int, y as int, color),
            decreases to - y,
        {
            let ghost row_start = self@;
            let mut x: u32 = 0;
            while x < width
                invariant
                    x <= width,
                    from <= y < to,
                    to <= old(self)@.height,
                    width == old(self)@.width,
                    row_start == with_rows(old(self)@, from as int, y as int, color),
                    self@.width == row_start.width,
                    self@.height == row_start.height,
                    self@.pixels.dom() == row_start.pixels.dom(),
                    forall|px: int, py: int|
                        row_start.contains(px, py) ==> #[trigger] self@.pixels[(px, py)] == (if py
                            == y && px < x {
                            color
                        } else {
                            row_start.pixels[(px, py)]
                        }),
                decreases width - x,
            {
                self.put_pixel(x, y, color);
                x += 1;
            }
            y += 1;
            assert(self@ =~= with_rows(old(self)@, from as int, y as int, color));
        }
    }

    /// Copies `src` onto the canvas with its top-left corner at
    /// `(left, top)`. Pixels of `src` that fall outside are dropped; pixels of
    /// the canvas that `src` does not reach stay.
    pub fn blit(&mut self, src: &Canvas, left: i64, top: i64)
        ensures
            final(self)@ == with_copy(old(self)@, src@, left as int, top as int),
    {
        let source_width = src.width();
        let source_height = src.height();
        let (x0, x1) = clip_span(left, source_width, self.width());
        let (y0, y1) = clip_span(top, source_height, self.height());
        let ghost before = self@;
        let ghost source = src@;
        assert forall|px: int, py: int| before.contains(px, py) implies (covered(
            px,
            py,
            left as int,
            top as int,
            source.width,
            source.height,
        ) <==> (x0 <= px < x1 && y0 <= py < y1)) by {
            lemma_overlap_exact(left as int, source.width, before.width, px);
            lemma_overlap_exact(top as int, source.height, before.height, py);
        }
        let mut y = y0;
        while y < y1
            invariant
                y0 <= y <= y1 <= before.height,
                x0 <= x1 <= before.width,
                before == old(self)@,
                source == src@,
                source_width == source.width,
                source_height == source.height,
                self@.width == before.width,
                self@.height == before.height,
                forall|px: int, py: int|
                    before.contains(px, py) ==> (covered(
                        px,
                        py,
                        left as int,
                        top as int,
                        source.width,
                        source.height,
                    ) <==> (x0 <= px < x1 && y0 <= py < y1)),
                forall|px: int, py: int|
                    before.contains(px, py) ==> #[trigger] self@.pixels[(px, py)] == (if x0 <= px
                        < x1 && y0 <= py < y {
                        source.pixels[(px - left, py - top)]
                    } else {
                        before.pixels[(px, py)]
                    }),
            decreases y1 - y,
        {
            let mut x = x0;
            while x < x1
                invariant
                    y0 <= y < y1 <= before.height,
                    x0 <= x <= x1 <= before.width,
                    source == src@,
                    source_width == source.width,
                    source_height == source.height,
                    self@.width == before.width,
                    self@.height == before.height,
                    forall|px: int, py: int|
                        before.contains(px, py) ==> (covered(
                            px,
                            py,
                            left as int,
                            top as int,
                            source.width,
                            source.height,
                        ) <==> (x0 <= px < x1 && y0 <= py < y1)),
                    forall|px: int, py: int|
                        before.contains(px, py) ==> #[trigger] self@.pixels[(px, py)] == (if x0
                            <= px < x1 && (y0 <= py < y || (py == y && px < x)) {
                            source.pixels[(px - left, py - top)]
                        } else {
                            before.pixels[(px, py)]
                        }),
                decreases x1 - x,
            {
                assert(before.contains(x as int, y as int));
                assert(covered(
                    x as int,
                    y as int,
                    left as int,
                    top as int,
                    source.width,
                    source.height,
                ));
                let sx = (x as i64 - left) as u32;
                let sy = (y as i64 - top) as u32;
                let color = src.pixel(sx, sy);
                self.put_pixel(x, y, color);
                x += 1;
            }
            y += 1;
        }
        assert(self@ =~= with_copy(before, source, left as int, top as int));
    }

    /// Lays `top_image` over the canvas with alpha blending, its top-left
    /// corner at `(left, top)`; what falls outside the canvas is dropped.
    /// A clear pixel of `top_image` changes nothing, a solid one replaces
    /// what is under it.
    pub fn overlay(&mut self, top_image: &Canvas, left: i64, top: i64)
        ensures
            final(self)@ == with_overlay(old(self)@, top_image@, left as int, top as int),
            overlay_respects_alpha(
                old(self)@,
                top_image@,
                left as int,
                top as int,
                final(self)@,
            ),
    {
        raw_overlay(self, top_image, left, top);
        assert(self@ =~= with_overlay(old(self)@, top_image@, left as int, top as int));
    }

    /// Reads a picture from encoded bytes.
    pub fn decode(bytes: &[u8]) -> (r: Result<Canvas, ImageFault>)
        ensures
            match decoded_view(bytes@) {
                Some(picture) => r is Ok && r->Ok_0@ == picture,
                None => r == Err::<Canvas, ImageFault>(ImageFault::Malformed),
            },
    {
        match raw_decode(bytes) {
            Ok(c) => Ok(c),
            Err(_) => Err(ImageFault::Malformed),
        }
    }

    /// Writes the canvas as a PNG file.
    pub fn encode_png(&self) -> (r: Result<Vec<u8>, ImageFault>)
        ensures
            match encoded_png(self@) {
                Some(bytes) => r is Ok && r->Ok_0@ == bytes,
                None => r == Err::<Vec<u8>, ImageFault>(ImageFault::Unencodable),
            },
    {
        match raw_encode_png(self) {
            Ok(bytes) => Ok(bytes),
            Err(_) => Err(ImageFault::Unencodable),
        }
    }
}

} // verus!
