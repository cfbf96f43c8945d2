use asahi::bitmap::Bitmap;
use asahi::canvas::Canvas;
use asahi::color::Rgba;
use asahi::error::{AsahiError, CanvasError};
use asahi::font::{assume_text_width, scale_units, Font, FontSet};
use asahi::layer::{resize, text_can_fit, Layer, Scale};

const RED: Rgba = Rgba { r: 255, g: 0, b: 0, a: 255 };
const GREEN: Rgba = Rgba { r: 0, g: 255, b: 0, a: 255 };
const BLUE: Rgba = Rgba { r: 0, g: 0, b: 255, a: 255 };
const WHITE: Rgba = Rgba { r: 255, g: 255, b: 255, a: 255 };
const BLACK: Rgba = Rgba { r: 0, g: 0, b: 0, a: 255 };

fn fonts() -> FontSet {
    let mut set = FontSet::new();
    set.insert(Font::DejaVuSans, dejavu::sans::regular().to_vec());
    set
}

fn gradient(width: u32, height: u32) -> Bitmap {
    let mut data = Vec::new();
    for y in 0..height {
        for x in 0..width {
            data.extend_from_slice(&[(x * 40) as u8, (y * 60) as u8, 128, 255 - (x * 20) as u8]);
        }
    }
    Bitmap::from_raw(width, height, data).unwrap()
}

#[test]
fn a_new_canvas_is_opaque_black_without_layers() {
    let canvas = Canvas::new(4, 3);
    assert_eq!((canvas.width, canvas.height), (4, 3));
    assert_eq!(canvas.bg_color, BLACK);
    assert!(canvas.layers.is_empty());
    let img = canvas.render(&FontSet::new()).unwrap();
    assert_eq!((img.width(), img.height()), (4, 3));
    assert_eq!(img.as_raw(), Bitmap::filled(4, 3, BLACK).unwrap().as_raw());
}

#[test]
fn the_background_fills_the_buffer() {
    let mut canvas = Canvas::new(2, 2);
    canvas.set_bg_color(GREEN);
    let img = canvas.render(&FontSet::new()).unwrap();
    assert_eq!(img.as_raw(), &[0, 255, 0, 255].repeat(4));
}

#[test]
fn a_degenerate_canvas_renders_to_nothing() {
    let mut canvas = Canvas::new(0, 7);
    canvas.add_layer(Layer::Rect { size: (3, 3), position: (0, 0), color: RED });
    canvas.add_layer(Layer::Line { start: (0, 0), end: (5, 5), width: 2, color: RED });
    let img = canvas.render(&FontSet::new()).unwrap();
    assert_eq!((img.width(), img.height()), (0, 7));
    assert!(img.as_raw().is_empty());
}

#[test]
fn a_canvas_beyond_a_buffer_is_an_error() {
    let canvas = Canvas::new(u32::MAX, u32::MAX);
    assert!(matches!(canvas.render(&FontSet::new()), Err(CanvasError::TooLarge)));
    assert!(matches!(canvas.to_bytes(None, &FontSet::new()), Err(CanvasError::TooLarge)));
}

#[test]
fn later_rectangles_cover_earlier_ones() {
    let mut canvas = Canvas::new(6, 6);
    canvas.set_bg_color(WHITE);
    canvas.add_layer(Layer::Rect { size: (4, 4), position: (0, 0), color: RED });
    canvas.add_layer(Layer::Rect { size: (4, 4), position: (2, 2), color: BLUE });
    let img = canvas.render(&FontSet::new()).unwrap();
    for y in 0..6 {
        for x in 0..6 {
            let in_a = x < 4 && y < 4;
            let in_b = x >= 2 && y >= 2;
            let want = if in_b {
                BLUE
            } else if in_a {
                RED
            } else {
                WHITE
            };
            assert_eq!(img.get_pixel(x, y), Some(want), "at {x},{y}");
        }
    }
}

#[test]
fn rendering_twice_gives_the_same_bytes() {
    let mut canvas = Canvas::new(120, 40);
    canvas.set_bg_color(WHITE);
    canvas.add_layer(Layer::Rect { size: (50, 10), position: (3, 3), color: RED });
    canvas.add_layer(Layer::Line { start: (0, 39), end: (119, 0), width: 3, color: BLUE });
    canvas.add_layer(Layer::Text {
        size: 20,
        position: (5, 5),
        color: BLACK,
        content: "Determinism".to_string(),
        font: Font::DejaVuSans,
    });
    canvas.add_layer(Layer::Image {
        scale: Scale { num: 3, den: 2 },
        position: (60, 10),
        image: gradient(6, 4),
    });
    let fonts = fonts();
    let first = canvas.render(&fonts).unwrap();
    let second = canvas.render(&fonts).unwrap();
    assert_eq!(first.as_raw(), second.as_raw());
}

#[test]
fn a_horizontal_line_of_width_three_covers_three_rows() {
    let mut canvas = Canvas::new(8, 8);
    canvas.set_bg_color(WHITE);
    canvas.add_layer(Layer::Line { start: (1, 2), end: (5, 2), width: 3, color: RED });
    let img = canvas.render(&FontSet::new()).unwrap();
    for y in 0..8 {
        for x in 0..8 {
            let want = if (1..=5).contains(&x) && (2..=4).contains(&y) { RED } else { WHITE };
            assert_eq!(img.get_pixel(x, y), Some(want), "at {x},{y}");
        }
    }
}

#[test]
fn a_line_is_drawn_as_the_rasteriser_draws_it() {
    let mut canvas = Canvas::new(20, 12);
    canvas.set_bg_color(WHITE);
    canvas.add_layer(Layer::Line { start: (2, 1), end: (17, 8), width: 2, color: BLUE });
    let ours = canvas.render(&FontSet::new()).unwrap();
    let mut theirs = image::RgbaImage::from_pixel(20, 12, image::Rgba([255, 255, 255, 255]));
    for offset in 0..2 {
        imageproc::drawing::draw_line_segment_mut(
            &mut theirs,
            (2.0, 1.0 + offset as f32),
            (17.0, 8.0 + offset as f32),
            image::Rgba([0, 0, 255, 255]),
        );
    }
    assert_eq!(ours.as_raw(), theirs.as_raw());
    assert_ne!(ours.as_raw(), Bitmap::filled(20, 12, WHITE).unwrap().as_raw());
}

#[test]
fn a_line_of_no_width_draws_nothing() {
    let mut canvas = Canvas::new(4, 4);
    canvas.add_layer(Layer::Line { start: (0, 0), end: (3, 3), width: 0, color: RED });
    canvas.add_layer(Layer::Line {
        start: (u32::MAX, u32::MAX),
        end: (0, 0),
        width: 0,
        color: RED,
    });
    let img = canvas.render(&FontSet::new()).unwrap();
    assert_eq!(img.as_raw(), Bitmap::filled(4, 4, BLACK).unwrap().as_raw());
}

#[test]
fn a_line_beyond_the_rasteriser_is_an_error() {
    let mut canvas = Canvas::new(4, 4);
    canvas.add_layer(Layer::Line { start: (0x4000_0000, 0), end: (3, 3), width: 1, color: RED });
    assert!(matches!(canvas.render(&FontSet::new()), Err(CanvasError::OutOfRange)));
    let mut canvas = Canvas::new(4, 4);
    canvas.add_layer(Layer::Line { start: (0, 0x3fff_ffff), end: (3, 3), width: 2, color: RED });
    assert!(matches!(canvas.render(&FontSet::new()), Err(CanvasError::OutOfRange)));
    let mut canvas = Canvas::new(4, 4);
    canvas.add_layer(Layer::Line { start: (0, 0x3fff_ffff), end: (3, 3), width: 1, color: RED });
    assert!(canvas.render(&FontSet::new()).is_ok());
}

#[test]
fn a_line_on_a_buffer_beyond_the_rasteriser_is_an_error() {
    // a side above 2^31 - 1 without a single pixel: the buffer is empty
    let mut canvas = Canvas::new(0x8000_0000, 0);
    canvas.add_layer(Layer::Line { start: (0, 0), end: (3, 3), width: 1, color: RED });
    assert!(matches!(canvas.render(&FontSet::new()), Err(CanvasError::OutOfRange)));
    let mut canvas = Canvas::new(0, 0x8000_0000);
    canvas.add_layer(Layer::Line { start: (0, 0), end: (3, 3), width: 1, color: RED });
    assert!(matches!(canvas.render(&FontSet::new()), Err(CanvasError::OutOfRange)));
    let mut canvas = Canvas::new(0x7fff_ffff, 0);
    canvas.add_layer(Layer::Line { start: (0, 0), end: (3, 3), width: 1, color: RED });
    assert!(canvas.render(&FontSet::new()).is_ok());
    let mut canvas = Canvas::new(0x8000_0000, 0);
    canvas.add_layer(Layer::Line { start: (0, 0), end: (3, 3), width: 0, color: RED });
    canvas.add_layer(Layer::Rect { size: (3, 3), position: (0, 0), color: RED });
    assert!(canvas.render(&FontSet::new()).is_ok());
}

#[test]
fn text_is_drawn_as_the_rasteriser_draws_it() {
    let mut canvas = Canvas::new(160, 40);
    canvas.set_bg_color(WHITE);
    canvas.add_layer(Layer::Text {
        size: 24,
        position: (4, 6),
        color: BLACK,
        content: "Players online".to_string(),
        font: Font::DejaVuSans,
    });
    let ours = canvas.render(&fonts()).unwrap();
    let mut theirs = image::RgbaImage::from_pixel(160, 40, image::Rgba([255, 255, 255, 255]));
    let face = ab_glyph::FontRef::try_from_slice(dejavu::sans::regular()).unwrap();
    imageproc::drawing::draw_text_mut(
        &mut theirs,
        image::Rgba([0, 0, 0, 255]),
        4,
        6,
        ab_glyph::PxScale::from(24.0),
        &face,
        "Players online",
    );
    assert_eq!(ours.as_raw(), theirs.as_raw());
    assert_ne!(ours.as_raw(), Bitmap::filled(160, 40, WHITE).unwrap().as_raw());
}

#[test]
fn text_without_font_data_is_an_error() {
    let mut canvas = Canvas::new(10, 10);
    canvas.add_layer(Layer::Rect { size: (2, 2), position: (0, 0), color: RED });
    canvas.add_layer(Layer::Text {
        size: 12,
        position: (0, 0),
        color: WHITE,
        content: "x".to_string(),
        font: Font::RobotoBold,
    });
    assert!(matches!(canvas.render(&fonts()), Err(CanvasError::FontMissing)));
    assert!(matches!(canvas.to_bytes(None, &fonts()), Err(CanvasError::FontMissing)));
}

#[test]
fn text_with_broken_font_data_is_an_error() {
    let mut set = FontSet::new();
    set.insert(Font::Custom("fonts/broken.ttf"), vec![0, 1, 2, 3]);
    let mut canvas = Canvas::new(10, 10);
    canvas.add_layer(Layer::Text {
        size: 12,
        position: (0, 0),
        color: WHITE,
        content: "x".to_string(),
        font: Font::Custom("fonts/broken.ttf"),
    });
    assert!(matches!(canvas.render(&set), Err(CanvasError::FontInvalid)));
    let error = canvas.render(&set).err().unwrap().into_asahi();
    assert!(matches!(error, AsahiError::Config(_)));
    assert_eq!(
        error.message(),
        "(Asahi) Configuration error: canvas: the data of a font is not a font file"
    );
}

#[test]
fn text_beyond_the_rasteriser_is_an_error() {
    let mut canvas = Canvas::new(10, 10);
    canvas.add_layer(Layer::Text {
        size: 50_000_000,
        position: (0, 0),
        color: WHITE,
        content: "x".to_string(),
        font: Font::DejaVuSans,
    });
    assert!(matches!(canvas.render(&fonts()), Err(CanvasError::OutOfRange)));
    let mut canvas = Canvas::new(10, 10);
    canvas.add_layer(Layer::Text {
        size: 12,
        position: (0, 0x4000_0000),
        color: WHITE,
        content: "x".to_string(),
        font: Font::DejaVuSans,
    });
    assert!(matches!(canvas.render(&fonts()), Err(CanvasError::OutOfRange)));
    let mut canvas = Canvas::new(10, 10);
    canvas.add_layer(Layer::Text {
        size: 4096,
        position: (0, 0),
        color: WHITE,
        content: "x".repeat(5000),
        font: Font::DejaVuSans,
    });
    assert!(matches!(canvas.render(&fonts()), Err(CanvasError::OutOfRange)));
}

#[test]
fn a_broken_font_comes_before_the_range() {
    let mut set = FontSet::new();
    set.insert(Font::DejaVuSans, vec![9; 64]);
    let mut canvas = Canvas::new(10, 10);
    canvas.add_layer(Layer::Text {
        size: 5000,
        position: (0x4000_0000, 0),
        color: WHITE,
        content: "x".to_string(),
        font: Font::DejaVuSans,
    });
    assert!(matches!(canvas.render(&set), Err(CanvasError::FontInvalid)));
}

#[test]
fn text_fits_where_its_reach_stays_in_range() {
    // DejaVu Sans is 2384 units high: ascent 1901, descent -483
    assert!(text_can_fit(0, 0, 24, 14, 2384));
    assert!(text_can_fit(0x3fff_ffff, 0x3fff_ffff, 4096, 0, 2384));
    assert!(text_can_fit(0, 0, 19_529_727, 0, 2384));
    assert!(!text_can_fit(0, 0, 19_529_728, 0, 2384));
    assert!(!text_can_fit(0, 0, u32::MAX, 0, 2384));
    // one character of 2384 units fits below 2^12 * 2384 pixels
    assert!(text_can_fit(0, 0, 9_764_863, 1, 2384));
    assert!(!text_can_fit(0, 0, 9_764_864, 1, 2384));
    assert!(!text_can_fit(0x4000_0000, 0, 24, 14, 2384));
    assert!(!text_can_fit(0, 0x4000_0000, 24, 14, 2384));
    assert!(text_can_fit(0, 0, 4097, 14, 2384));
    assert!(!text_can_fit(0, 0, 24, 14, 0));
    assert!(!text_can_fit(0, 0, 24, 14, -5));
    // (len + 1) * size * 2^17 must stay below 2^30 * height
    assert!(text_can_fit(0, 0, 1, 8190, 1));
    assert!(!text_can_fit(0, 0, 1, 8191, 1));
    assert!(text_can_fit(0, 0, 24, 813_737, 2384));
    assert!(!text_can_fit(0, 0, 24, 813_738, 2384));
    assert!(!text_can_fit(0, 0, 24, usize::MAX, 2384));
    assert!(text_can_fit(0, 0, 0, usize::MAX, 1));
}

#[test]
fn font_sets_keep_the_latest_data_of_a_choice() {
    let mut set = FontSet::new();
    assert!(set.get(&Font::DejaVuSans).is_none());
    set.insert(Font::DejaVuSans, vec![1]);
    set.insert(Font::Custom("a.ttf"), vec![2]);
    set.insert(Font::Custom("b.ttf"), vec![3]);
    set.insert(Font::DejaVuSans, vec![4]);
    assert_eq!(set.get(&Font::DejaVuSans), Some(&vec![4]));
    assert_eq!(set.get(&Font::Custom("a.ttf")), Some(&vec![2]));
    assert_eq!(set.get(&Font::Custom("b.ttf")), Some(&vec![3]));
    assert!(set.get(&Font::Custom("c.ttf")).is_none());
    assert!(set.get(&Font::UbuntuBold).is_none());
    assert!(Font::Custom("a.ttf").same(&Font::Custom("a.ttf")));
    assert!(!Font::Custom("a.ttf").same(&Font::DejaVuSans));
    assert!(Font::RobotoBold.same(&Font::RobotoBold));
    assert!(!Font::RobotoBold.same(&Font::RobotoRegular));
}

#[test]
fn resizing_rounds_each_side() {
    let image = gradient(5, 3);
    let half = resize(&image, Scale { num: 1, den: 2 }).unwrap();
    // 2.5 rounds to 3, 1.5 rounds to 2
    assert_eq!((half.width(), half.height()), (3, 2));
    let third = resize(&image, Scale { num: 1, den: 3 }).unwrap();
    // 1.67 rounds to 2, 1.0 stays
    assert_eq!((third.width(), third.height()), (2, 1));
    let more = resize(&image, Scale { num: 24, den: 72 }).unwrap();
    assert_eq!((more.width(), more.height()), (2, 1));
    let twice = resize(&image, Scale { num: 2, den: 1 }).unwrap();
    assert_eq!((twice.width(), twice.height()), (10, 6));
    assert_eq!(twice.as_raw().len(), 10 * 6 * 4);
    let same = resize(&image, Scale::identity()).unwrap();
    assert_eq!(same.as_raw(), image.as_raw());
    let none = resize(&image, Scale { num: 0, den: 5 }).unwrap();
    assert_eq!((none.width(), none.height()), (0, 0));
    assert_eq!(Scale { num: 1, den: 2 }.apply(5), Some(3));
    assert_eq!(Scale { num: 1, den: 2 }.apply(4), Some(2));
    assert_eq!(Scale { num: 49, den: 100 }.apply(1), Some(0));
    assert_eq!(Scale { num: u32::MAX, den: 1 }.apply(1), Some(u32::MAX));
    assert_eq!(Scale { num: u32::MAX, den: 1 }.apply(2), None);
    assert_eq!(Scale { num: 1, den: 0 }.apply(2), None);
}

#[test]
fn resizing_resamples_as_the_image_crate_does() {
    let image = gradient(6, 4);
    let ours = resize(&image, Scale { num: 3, den: 2 }).unwrap();
    let source = image::RgbaImage::from_raw(6, 4, image.as_raw().clone()).unwrap();
    let theirs = image::imageops::resize(&source, 9, 6, image::imageops::FilterType::Lanczos3);
    assert_eq!((ours.width(), ours.height()), (9, 6));
    assert_eq!(ours.as_raw(), theirs.as_raw());
}

#[test]
fn resizing_without_denominator_or_beyond_a_buffer_is_an_error() {
    let image = gradient(5, 3);
    assert!(matches!(resize(&image, Scale { num: 1, den: 0 }), Err(CanvasError::OutOfRange)));
    assert!(matches!(
        resize(&image, Scale { num: u32::MAX, den: 1 }),
        Err(CanvasError::OutOfRange)
    ));
    assert!(matches!(
        resize(&image, Scale { num: 0x3000_0000, den: 1 }),
        Err(CanvasError::TooLarge)
    ));
    let mut canvas = Canvas::new(4, 4);
    canvas.add_layer(Layer::Image { scale: Scale { num: 1, den: 0 }, position: (0, 0), image });
    assert!(matches!(canvas.render(&FontSet::new()), Err(CanvasError::OutOfRange)));
}

#[test]
fn an_image_layer_composites_by_alpha() {
    let clear = Rgba { r: 1, g: 2, b: 3, a: 0 };
    let mut image = Bitmap::filled(2, 1, clear).unwrap();
    image.set_pixel(1, 0, GREEN);
    let mut canvas = Canvas::new(4, 2);
    canvas.set_bg_color(RED);
    canvas.add_layer(Layer::Image { scale: Scale::identity(), position: (1, 1), image });
    let img = canvas.render(&FontSet::new()).unwrap();
    assert_eq!(img.get_pixel(1, 1), Some(RED));
    assert_eq!(img.get_pixel(2, 1), Some(GREEN));
    assert_eq!(img.get_pixel(3, 1), Some(RED));
    assert_eq!(img.get_pixel(1, 0), Some(RED));
}

#[test]
fn text_width_sums_scaled_advances() {
    let font = dejavu::sans::regular();
    let face = ab_glyph::FontRef::try_from_slice(font).unwrap();
    for (text, size) in [("Players online", 32u32), ("Nwero", 24), ("", 24), ("💾", 24), ("Friendly Spider", 13)] {
        let scaled = ab_glyph::Font::as_scaled(&face, ab_glyph::PxScale::from(size as f32));
        let want = text
            .chars()
            .map(|c| ab_glyph::ScaleFont::h_advance(&scaled, ab_glyph::ScaleFont::glyph_id(&scaled, c)))
            .sum::<f32>()
            .ceil() as u32;
        assert_eq!(assume_text_width(text, size, font), Some(want), "for {text:?} at {size}");
    }
    assert_eq!(assume_text_width("Nwero", 0, font), Some(0));
    assert_eq!(assume_text_width("abc", 24, &[1, 2, 3]), None);
    assert!(assume_text_width("Nwero", 24, font).unwrap() > 24);
}

#[test]
fn scaled_widths_round_up() {
    assert_eq!(scale_units(0, 24, 2048), 0);
    assert_eq!(scale_units(2048, 24, 2048), 24);
    assert_eq!(scale_units(2049, 24, 2048), 25);
    assert_eq!(scale_units(1, 1, 2), 1);
    assert_eq!(scale_units(100, 3, 7), 43);
    assert_eq!(scale_units(100, 3, 0), 0);
    assert_eq!(scale_units(100, 3, -5), 0);
    assert_eq!(scale_units(u64::MAX as u128, u32::MAX, 1), u32::MAX);
}

#[test]
fn fonts_name_their_files() {
    assert_eq!(Font::DejaVuSans.file(), "DejaVuSans.ttf");
    assert_eq!(Font::UbuntuRegular.file(), "ubuntu/Ubuntu-Regular.ttf");
    assert_eq!(Font::UbuntuBold.file(), "ubuntu/Ubuntu-Bold.ttf");
    assert_eq!(Font::RobotoRegular.file(), "roboto/Roboto-Regular.ttf");
    assert_eq!(Font::RobotoBold.file(), "roboto/Roboto-Bold.ttf");
    assert_eq!(Font::Custom("/usr/share/fonts/x.ttf").file(), "/usr/share/fonts/x.ttf");
    assert!(Font::RobotoBold.is_bundled());
    assert!(!Font::Custom("x.ttf").is_bundled());
}
