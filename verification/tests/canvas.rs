use map_preview::canvas::{clip_span, Canvas, ImageFault, TRANSPARENT, WHITE};
use map_preview::format::PreviewFormat;

const RED: (u8, u8, u8, u8) = (255, 0, 0, 255);
const BLUE: (u8, u8, u8, u8) = (0, 0, 255, 255);

fn filled(width: u32, height: u32, color: (u8, u8, u8, u8)) -> Canvas {
    let mut c = Canvas::new(width, height);
    c.fill_rows(0, height, color);
    c
}

#[test]
fn new_canvas_is_transparent() {
    let c = Canvas::new(3, 2);
    assert_eq!(c.width(), 3);
    assert_eq!(c.height(), 2);
    for y in 0..2 {
        for x in 0..3 {
            assert_eq!(c.pixel(x, y), TRANSPARENT);
        }
    }
}

#[test]
fn canvas_size_follows_the_format() {
    let og = Canvas::for_format(PreviewFormat::OpenGraph);
    assert_eq!((og.width(), og.height()), (1200, 630));
    let sq = Canvas::for_format(PreviewFormat::Square);
    assert_eq!((sq.width(), sq.height()), (1200, 1200));
    assert_eq!(sq.pixel(1199, 1199), TRANSPARENT);
}

#[test]
fn put_pixel_changes_one_pixel() {
    let mut c = Canvas::new(4, 4);
    c.put_pixel(2, 1, RED);
    for y in 0..4 {
        for x in 0..4 {
            let expected = if (x, y) == (2, 1) { RED } else { TRANSPARENT };
            assert_eq!(c.pixel(x, y), expected);
        }
    }
}

#[test]
fn checked_access_outside_the_canvas() {
    let mut c = Canvas::new(2, 2);
    assert_eq!(c.pixel_checked(2, 0), None);
    assert_eq!(c.pixel_checked(0, 2), None);
    assert_eq!(c.pixel_checked(1, 1), Some(TRANSPARENT));
    assert!(!c.put_pixel_checked(2, 0, RED));
    assert!(c.put_pixel_checked(1, 0, RED));
    assert_eq!(c.pixel(1, 0), RED);
    assert_eq!(c.pixel(0, 0), TRANSPARENT);
}

#[test]
fn fill_rows_paints_a_band() {
    let mut c = Canvas::new(5, 6);
    c.fill_rows(2, 4, WHITE);
    for y in 0..6 {
        for x in 0..5 {
            let expected = if (2..4).contains(&y) { WHITE } else { TRANSPARENT };
            assert_eq!(c.pixel(x, y), expected);
        }
    }
    c.fill_rows(3, 3, RED);
    assert_eq!(c.pixel(0, 3), WHITE);
}

#[test]
fn clip_span_cases() {
    assert_eq!(clip_span(0, 10, 100), (0, 10));
    assert_eq!(clip_span(-4, 10, 100), (0, 6));
    assert_eq!(clip_span(95, 10, 100), (95, 100));
    assert_eq!(clip_span(-20, 10, 100), (0, 0));
    assert_eq!(clip_span(100, 10, 100), (100, 100));
    assert_eq!(clip_span(500, 10, 100), (100, 100));
    assert_eq!(clip_span(-5, 200, 100), (0, 100));
    assert_eq!(clip_span(i64::MIN, u32::MAX, 100), (0, 0));
    assert_eq!(clip_span(i64::MAX, u32::MAX, 100), (100, 100));
}

#[test]
fn blit_copies_inside_the_canvas() {
    let mut c = Canvas::new(6, 6);
    let mut src = Canvas::new(2, 3);
    src.put_pixel(0, 0, RED);
    src.put_pixel(1, 2, BLUE);
    c.blit(&src, 3, 1);
    assert_eq!(c.pixel(3, 1), RED);
    assert_eq!(c.pixel(4, 3), BLUE);
    assert_eq!(c.pixel(4, 1), TRANSPARENT);
    assert_eq!(c.pixel(2, 1), TRANSPARENT);
}

#[test]
fn blit_overwrites_without_blending() {
    let mut c = filled(4, 4, WHITE);
    let src = Canvas::new(2, 2);
    c.blit(&src, 1, 1);
    assert_eq!(c.pixel(1, 1), TRANSPARENT);
    assert_eq!(c.pixel(2, 2), TRANSPARENT);
    assert_eq!(c.pixel(0, 0), WHITE);
    assert_eq!(c.pixel(3, 3), WHITE);
}

#[test]
fn blit_crops_at_every_edge() {
    let mut c = Canvas::new(4, 4);
    let src = filled(3, 3, RED);
    c.blit(&src, -2, -1);
    assert_eq!(c.pixel(0, 0), RED);
    assert_eq!(c.pixel(0, 1), RED);
    assert_eq!(c.pixel(1, 0), TRANSPARENT);
    assert_eq!(c.pixel(0, 2), TRANSPARENT);
    let mut c = Canvas::new(4, 4);
    c.blit(&src, 3, 2);
    assert_eq!(c.pixel(3, 2), RED);
    assert_eq!(c.pixel(3, 3), RED);
    assert_eq!(c.pixel(2, 3), TRANSPARENT);
    let mut c = Canvas::new(4, 4);
    c.blit(&src, 4, 0);
    c.blit(&src, 0, -3);
    c.blit(&src, i64::MAX, i64::MIN);
    for y in 0..4 {
        for x in 0..4 {
            assert_eq!(c.pixel(x, y), TRANSPARENT);
        }
    }
}

#[test]
fn blit_takes_the_matching_source_pixel() {
    let mut src = Canvas::new(3, 3);
    for y in 0..3u32 {
        for x in 0..3u32 {
            src.put_pixel(x, y, (x as u8, y as u8, 0, 255));
        }
    }
    let mut c = Canvas::new(2, 2);
    c.blit(&src, -1, -1);
    assert_eq!(c.pixel(0, 0), (1, 1, 0, 255));
    assert_eq!(c.pixel(1, 0), (2, 1, 0, 255));
    assert_eq!(c.pixel(0, 1), (1, 2, 0, 255));
    assert_eq!(c.pixel(1, 1), (2, 2, 0, 255));
}

#[test]
fn overlay_blends_by_alpha() {
    let mut c = filled(3, 1, WHITE);
    let mut top = Canvas::new(3, 1);
    top.put_pixel(0, 0, RED);
    top.put_pixel(1, 0, (0, 0, 0, 128));
    c.overlay(&top, 0, 0);
    assert_eq!(c.pixel(0, 0), RED);
    let mixed = c.pixel(1, 0);
    assert!(mixed.0 > 100 && mixed.0 < 150, "{:?}", mixed);
    assert_eq!(mixed.0, mixed.1);
    assert_eq!(mixed.1, mixed.2);
    assert!(mixed.3 >= 254, "{:?}", mixed);
    assert_eq!(c.pixel(2, 0), WHITE);
}

#[test]
fn overlay_is_placed_and_cropped() {
    let mut c = filled(4, 4, WHITE);
    let top = filled(3, 3, BLUE);
    c.overlay(&top, 2, -1);
    assert_eq!(c.pixel(2, 0), BLUE);
    assert_eq!(c.pixel(3, 1), BLUE);
    assert_eq!(c.pixel(1, 0), WHITE);
    assert_eq!(c.pixel(2, 2), WHITE);
    assert_eq!((c.width(), c.height()), (4, 4));
}

#[test]
fn overlay_far_off_changes_nothing() {
    let mut c = filled(3, 3, WHITE);
    let top = filled(2, 2, BLUE);
    for (x, y) in [(i64::MIN, 0), (0, i64::MIN), (i64::MAX, 0), (0, i64::MAX), (3, 0), (0, -2)] {
        c.overlay(&top, x, y);
    }
    for y in 0..3 {
        for x in 0..3 {
            assert_eq!(c.pixel(x, y), WHITE);
        }
    }
    c.overlay(&top, i64::MIN + 1, i64::MAX - 1);
    c.overlay(&top, -1, -1);
    assert_eq!(c.pixel(0, 0), BLUE);
    assert_eq!(c.pixel(1, 0), WHITE);
}

#[test]
fn clear_pixels_leave_the_canvas_and_solid_ones_replace_it() {
    let mut c = Canvas::new(3, 1);
    c.put_pixel(0, 0, (10, 20, 30, 40));
    c.put_pixel(1, 0, (10, 20, 30, 40));
    c.put_pixel(2, 0, (10, 20, 30, 40));
    let mut top = Canvas::new(3, 1);
    top.put_pixel(0, 0, (200, 100, 50, 0));
    top.put_pixel(1, 0, (200, 100, 50, 255));
    c.overlay(&top, 0, 0);
    assert_eq!(c.pixel(0, 0), (10, 20, 30, 40));
    assert_eq!(c.pixel(1, 0), (200, 100, 50, 255));
    assert_eq!(c.pixel(2, 0), (10, 20, 30, 40));
}

#[test]
fn png_round_trip() {
    let mut c = Canvas::new(3, 2);
    c.put_pixel(0, 0, RED);
    c.put_pixel(2, 1, (1, 2, 3, 4));
    let bytes = c.encode_png().unwrap();
    assert_eq!(&bytes[..8], &[0x89, b'P', b'N', b'G', 0x0d, 0x0a, 0x1a, 0x0a]);
    let back = Canvas::decode(&bytes).unwrap();
    assert_eq!((back.width(), back.height()), (3, 2));
    for y in 0..2 {
        for x in 0..3 {
            assert_eq!(back.pixel(x, y), c.pixel(x, y));
        }
    }
}

#[test]
fn encoding_is_repeatable() {
    let c = filled(7, 5, BLUE);
    assert_eq!(c.encode_png().unwrap(), c.encode_png().unwrap());
}

#[test]
fn garbage_is_malformed() {
    assert_eq!(Canvas::decode(b"not a picture").err(), Some(ImageFault::Malformed));
    assert_eq!(Canvas::decode(&[]).err(), Some(ImageFault::Malformed));
}

#[test]
fn empty_canvas_has_no_png() {
    assert_eq!(Canvas::new(0, 0).encode_png().err(), Some(ImageFault::Unencodable));
}
