use asahi::bitmap::{buffer_len, clip_end, Bitmap};
use asahi::color::{to_rgba, Rgba};

const RED: Rgba = Rgba { r: 255, g: 0, b: 0, a: 255 };
const BLUE: Rgba = Rgba { r: 0, g: 0, b: 255, a: 255 };
const CLEAR: Rgba = Rgba { r: 9, g: 9, b: 9, a: 0 };

#[test]
fn to_rgba_splits_the_three_low_bytes() {
    assert_eq!(to_rgba(0xFFD700), Rgba { r: 255, g: 215, b: 0, a: 255 });
    assert_eq!(to_rgba(0x000000), Rgba { r: 0, g: 0, b: 0, a: 255 });
    assert_eq!(to_rgba(0x2B2D31), Rgba { r: 0x2b, g: 0x2d, b: 0x31, a: 255 });
    assert_eq!(to_rgba(0xAB123456), Rgba { r: 0x12, g: 0x34, b: 0x56, a: 255 });
}

#[test]
fn filled_bitmaps_are_uniform() {
    let img = Bitmap::filled(3, 2, RED).unwrap();
    assert_eq!((img.width(), img.height()), (3, 2));
    assert_eq!(img.as_raw().len(), 24);
    for y in 0..2 {
        for x in 0..3 {
            assert_eq!(img.get_pixel(x, y), Some(RED));
        }
    }
    assert_eq!(img.get_pixel(3, 0), None);
    assert_eq!(img.get_pixel(0, 2), None);
}

#[test]
fn degenerate_bitmaps_are_empty() {
    let img = Bitmap::filled(0, 5, RED).unwrap();
    assert_eq!(img.as_raw().len(), 0);
    assert_eq!(img.get_pixel(0, 0), None);
    let img = Bitmap::filled(5, 0, RED).unwrap();
    assert_eq!(img.into_raw().len(), 0);
}

#[test]
fn bitmaps_beyond_a_buffer_are_refused() {
    assert!(Bitmap::filled(u32::MAX, u32::MAX, RED).is_none());
    assert_eq!(buffer_len(u32::MAX, u32::MAX), None);
    assert_eq!(buffer_len(2, 3), Some(24));
    assert_eq!(buffer_len(0, u32::MAX), Some(0));
}

#[test]
fn from_raw_wants_four_bytes_a_pixel() {
    assert!(Bitmap::from_raw(1, 1, vec![1, 2, 3]).is_none());
    assert!(Bitmap::from_raw(1, 1, vec![1, 2, 3, 4, 5]).is_none());
    let img = Bitmap::from_raw(2, 1, vec![1, 2, 3, 4, 5, 6, 7, 8]).unwrap();
    assert_eq!(img.get_pixel(0, 0), Some(Rgba { r: 1, g: 2, b: 3, a: 4 }));
    assert_eq!(img.get_pixel(1, 0), Some(Rgba { r: 5, g: 6, b: 7, a: 8 }));
    let copy = img.duplicate();
    assert_eq!(copy.as_raw(), img.as_raw());
}

#[test]
fn set_pixel_changes_one_pixel() {
    let mut img = Bitmap::filled(3, 3, RED).unwrap();
    img.set_pixel(1, 2, BLUE);
    for y in 0..3 {
        for x in 0..3 {
            let want = if (x, y) == (1, 2) { BLUE } else { RED };
            assert_eq!(img.get_pixel(x, y), Some(want));
        }
    }
}

#[test]
fn fill_rect_paints_inside_and_clips() {
    let mut img = Bitmap::filled(5, 4, RED).unwrap();
    img.fill_rect(3, 2, 10, 10, BLUE);
    for y in 0..4 {
        for x in 0..5 {
            let want = if x >= 3 && y >= 2 { BLUE } else { RED };
            assert_eq!(img.get_pixel(x, y), Some(want), "at {x},{y}");
        }
    }
    let mut img = Bitmap::filled(5, 4, RED).unwrap();
    img.fill_rect(1, 1, 2, 1, BLUE);
    assert_eq!(img.get_pixel(1, 1), Some(BLUE));
    assert_eq!(img.get_pixel(2, 1), Some(BLUE));
    assert_eq!(img.get_pixel(3, 1), Some(RED));
    assert_eq!(img.get_pixel(1, 2), Some(RED));
}

#[test]
fn fill_rect_outside_or_empty_paints_nothing() {
    let mut img = Bitmap::filled(4, 4, RED).unwrap();
    img.fill_rect(4, 0, 3, 3, BLUE);
    img.fill_rect(0, 9, 3, 3, BLUE);
    img.fill_rect(1, 1, 0, 3, BLUE);
    img.fill_rect(1, 1, 3, 0, BLUE);
    img.fill_rect(u32::MAX, u32::MAX, u32::MAX, u32::MAX, BLUE);
    assert_eq!(img.as_raw(), Bitmap::filled(4, 4, RED).unwrap().as_raw());
}

#[test]
fn clip_end_stops_at_the_limit() {
    assert_eq!(clip_end(2, 3, 10), 5);
    assert_eq!(clip_end(2, 30, 10), 10);
    assert_eq!(clip_end(12, 3, 10), 10);
    assert_eq!(clip_end(u32::MAX, u32::MAX, u32::MAX), u32::MAX);
}

#[test]
fn overlay_keeps_under_transparent_and_takes_opaque() {
    let mut bottom = Bitmap::filled(4, 4, RED).unwrap();
    let mut top = Bitmap::filled(2, 2, CLEAR).unwrap();
    top.set_pixel(1, 0, BLUE);
    bottom.overlay(&top, 1, 1);
    assert_eq!(bottom.get_pixel(1, 1), Some(RED));
    assert_eq!(bottom.get_pixel(2, 1), Some(BLUE));
    assert_eq!(bottom.get_pixel(1, 2), Some(RED));
    assert_eq!(bottom.get_pixel(2, 2), Some(RED));
    assert_eq!(bottom.get_pixel(0, 0), Some(RED));
    assert_eq!(bottom.get_pixel(3, 3), Some(RED));
}

#[test]
fn overlay_mixes_as_the_image_crate_blends() {
    let under = Rgba { r: 200, g: 100, b: 50, a: 255 };
    let over = Rgba { r: 10, g: 20, b: 30, a: 128 };
    let mut bottom = Bitmap::filled(2, 1, under).unwrap();
    let top = Bitmap::filled(1, 1, over).unwrap();
    bottom.overlay(&top, 1, 0);
    let mut want = image::Rgba([200u8, 100, 50, 255]);
    image::Pixel::blend(&mut want, &image::Rgba([10u8, 20, 30, 128]));
    assert_ne!(want.0, [200, 100, 50, 255]);
    assert_ne!(want.0, [10, 20, 30, 128]);
    assert_eq!(
        bottom.get_pixel(1, 0),
        Some(Rgba { r: want.0[0], g: want.0[1], b: want.0[2], a: want.0[3] })
    );
    assert_eq!(bottom.get_pixel(0, 0), Some(under));
}

#[test]
fn overlay_clips_to_the_bottom() {
    let mut bottom = Bitmap::filled(3, 3, RED).unwrap();
    let top = Bitmap::filled(5, 5, BLUE).unwrap();
    bottom.overlay(&top, 2, 1);
    for y in 0..3 {
        for x in 0..3 {
            let want = if x >= 2 && y >= 1 { BLUE } else { RED };
            assert_eq!(bottom.get_pixel(x, y), Some(want));
        }
    }
    let mut bottom = Bitmap::filled(3, 3, RED).unwrap();
    bottom.overlay(&top, 3, 0);
    bottom.overlay(&top, 0, 3);
    assert_eq!(bottom.as_raw(), Bitmap::filled(3, 3, RED).unwrap().as_raw());
}

#[test]
fn overlay_agrees_with_the_image_crate() {
    let mut ours = Bitmap::filled(6, 5, Rgba { r: 40, g: 80, b: 120, a: 200 }).unwrap();
    let mut top = Bitmap::filled(4, 4, Rgba { r: 250, g: 10, b: 60, a: 90 }).unwrap();
    top.set_pixel(0, 0, CLEAR);
    top.set_pixel(3, 3, BLUE);
    let mut theirs = image::RgbaImage::from_raw(6, 5, ours.as_raw().clone()).unwrap();
    let their_top = image::RgbaImage::from_raw(4, 4, top.as_raw().clone()).unwrap();
    ours.overlay(&top, 3, 2);
    image::imageops::overlay(&mut theirs, &their_top, 3, 2);
    assert_eq!(ours.as_raw(), theirs.as_raw());
}
