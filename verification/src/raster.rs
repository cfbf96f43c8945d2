//! What the `image`, `imageproc` and `ab_glyph` crates compute for the
//! renderer: line walks, glyph coverage, resampling, blending and the two
//! codecs. Each function here makes one such call on a [`Bitmap`] or on plain
//! values; its contract is what the rest of the library relies on.

use vstd::prelude::*;
use crate::bitmap::{Bitmap, Pixels};
use crate::color::Rgba;

verus! {

/// Largest coordinate, exclusive, that is handed to the line and text
/// rasterisers: they compute in signed 32-bit pixels.
pub const COORD_LIMIT: u32 = 0x4000_0000;

/// Largest side of a buffer on which the line rasteriser draws: it tests
/// its pixels against width and height as signed 32-bit numbers.
pub const SIDE_LIMIT: u32 = 0x7fff_ffff;

/// How many font units one character can add to the reach of a text at
/// most: the advance, the kerning and the outline of a glyph are 16-bit
/// numbers of font units each.
pub const FONT_UNIT_SPAN: u32 = 0x2_0000;

/// Largest width and height that the lossless codec takes.
pub const WEBP_MAX_SIDE: u32 = 16384;

/// Largest width and height that the lossy codec takes.
pub const JPEG_MAX_SIDE: u32 = 65535;

/// `image::ImageError`: what the codecs of the `image` crate fail with.
#[verifier::external_type_specification]
#[verifier::external_body]
pub struct ExImageError(image::ImageError);

/// What an encoder hands back: the file's bytes, or the codec's own error.
pub type Encoded = Result<Vec<u8>, image::ImageError>;

/// The colour that alpha compositing gives for a source pixel that is
/// neither fully transparent nor fully opaque.
pub uninterp spec fn blend_mixed(dst: Rgba, src: Rgba) -> Rgba;

/// The pixels that the line rasteriser visits between two end points.
pub uninterp spec fn segment_pixels(x0: int, y0: int, x1: int, y1: int) -> Set<(int, int)>;

/// The bytes of an image after text has been drawn on it, or `None` where
/// `font` is not a font file.
pub uninterp spec fn text_stamp(
    before: Pixels,
    color: Rgba,
    x: int,
    y: int,
    size: int,
    font: Seq<u8>,
    text: Seq<char>,
) -> Option<Seq<u8>>;

/// The bytes of `src` resampled to `width` by `height` with the Lanczos
/// filter of three lobes.
pub uninterp spec fn lanczos3(src: Pixels, width: int, height: int) -> Seq<u8>;

/// The lossless encoding of an image.
pub uninterp spec fn webp_bytes(img: Pixels) -> Seq<u8>;

/// The lossy encoding of an image, without its alpha channel, at a quality.
pub uninterp spec fn jpeg_bytes(img: Pixels, quality: int) -> Seq<u8>;

/// Height of a font, ascent minus descent, in font units; `None` where the
/// bytes are not a font file.
pub uninterp spec fn font_height_units(font: Seq<u8>) -> Option<int>;

/// Horizontal advance, in font units, of the glyph that a font has for `c`.
pub uninterp spec fn glyph_advance_units(font: Seq<u8>, c: char) -> int;

/// The lossless codec takes images whose sides are between 1 and 16384.
pub open spec fn webp_takes(img: Pixels) -> bool {
    1 <= img.width <= WEBP_MAX_SIDE && 1 <= img.height <= WEBP_MAX_SIDE
}

/// The lossy codec takes images whose sides are between 1 and 65535.
pub open spec fn jpeg_takes(img: Pixels) -> bool {
    1 <= img.width <= JPEG_MAX_SIDE && 1 <= img.height <= JPEG_MAX_SIDE
}

/// A font file gives its metrics as 16-bit numbers.
pub open spec fn is_font_units(v: int) -> bool {
    -65535 <= v <= 65535
}

/// A text can be handed to the glyph rasteriser: its origin lies below
/// the coordinate limit, the font has a height, and the reach of its
/// characters at its size, scaled from font units to pixels, stays below
/// the coordinate limit as well.
pub open spec fn text_fits(x: int, y: int, size: int, len: int, height_units: int) -> bool {
    &&& x < COORD_LIMIT
    &&& y < COORD_LIMIT
    &&& height_units > 0
    &&& (len + 1) * size * FONT_UNIT_SPAN < COORD_LIMIT * height_units
}

/// `image::Pixel::blend` on two RGBA8 pixels: a source with alpha 0 leaves
/// the destination as it is, a source with alpha 255 replaces it, and any
/// other source is mixed in by a formula on the two pixels alone.
#[verifier::external_body]
pub(crate) fn blend(dst: Rgba, src: Rgba) -> (out: Rgba)
    ensures
        src.a == 0 ==> out == dst,
        src.a == 255 ==> out == src,
        src.a != 0 && src.a != 255 ==> out == blend_mixed(dst, src),
{
    let mut below = image::Rgba([dst.r, dst.g, dst.b, dst.a]);
    let above = image::Rgba([src.r, src.g, src.b, src.a]);
    image::Pixel::blend(&mut below, &above);
    Rgba { r: below.0[0], g: below.0[1], b: below.0[2], a: below.0[3] }
}

/// `imageproc::drawing::draw_line_segment_mut` on an RGBA8 buffer: it walks
/// the Bresenham line from the first end point to the second and overwrites
/// each visited pixel that lies inside the image with `color`. The walk
/// depends on the end points alone. Coordinates stay below [`COORD_LIMIT`],
/// where the walk's 32-bit counters cannot overflow, and the sides of the
/// buffer at or below [`SIDE_LIMIT`], where the test whether a pixel lies
/// inside, made in signed 32-bit numbers, is the true one.
#[verifier::external_body]
pub(crate) fn draw_segment(img: &mut Bitmap, x0: u32, y0: u32, x1: u32, y1: u32, color: Rgba)
    requires
        old(img).wf(),
        old(img)@.width <= SIDE_LIMIT,
        old(img)@.height <= SIDE_LIMIT,
        x0 < COORD_LIMIT,
        y0 < COORD_LIMIT,
        x1 < COORD_LIMIT,
        y1 < COORD_LIMIT,
    ensures
        final(img)@.same_size(old(img)@),
        final(img).wf(),
        forall|x: int, y: int|
            old(img)@.contains(x, y) ==> #[trigger] final(img)@.at(x, y) == (if segment_pixels(
                x0 as int,
                y0 as int,
                x1 as int,
                y1 as int,
            ).contains((x, y)) {
                color
            } else {
                old(img)@.at(x, y)
            }),
{
    let data = std::mem::take(&mut img.data);
    let mut buf = image::RgbaImage::from_raw(img.width, img.height, data).unwrap();
    let ink = image::Rgba([color.r, color.g, color.b, color.a]);
    imageproc::drawing::draw_line_segment_mut(
        &mut buf,
        (x0 as _, y0 as _),
        (x1 as _, y1 as _),
        ink,
    );
    img.data = buf.into_raw();
}

/// `ab_glyph::FontRef::try_from_slice` followed by
/// `imageproc::drawing::draw_text_mut` on an RGBA8 buffer: where the bytes
/// parse as a font, each glyph's coverage is mixed into the pixels it
/// touches inside the image, and the size of the image stays; where they do
/// not, nothing is drawn and `false` comes back. The outcome depends on the
/// arguments alone. The rasteriser places glyphs in signed 32-bit pixels:
/// its sums stay in range where origin and reach of the text stay below
/// [`COORD_LIMIT`], which [`text_fits`] says.
#[verifier::external_body]
pub(crate) fn draw_text(
    img: &mut Bitmap,
    color: Rgba,
    x: u32,
    y: u32,
    size: u32,
    font: &[u8],
    text: &str,
) -> (drawn: bool)
    requires
        old(img).wf(),
        font_height_units(font@) matches Some(h) && text_fits(
            x as int,
            y as int,
            size as int,
            text@.len() as int,
            h,
        ),
    ensures
        drawn == text_stamp(old(img)@, color, x as int, y as int, size as int, font@, text@)
            is Some,
        final(img)@.same_size(old(img)@),
        final(img).wf(),
        final(img)@.data == match text_stamp(
            old(img)@,
            color,
            x as int,
            y as int,
            size as int,
            font@,
            text@,
        ) {
            Some(bytes) => bytes,
            None => old(img)@.data,
        },
{
    let Ok(face) = ab_glyph::FontRef::try_from_slice(font) else {
        return false;
    };
    let data = std::mem::take(&mut img.data);
    let mut buf = image::RgbaImage::from_raw(img.width, img.height, data).unwrap();
    let ink = image::Rgba([color.r, color.g, color.b, color.a]);
    let scale = ab_glyph::PxScale { x: size as _, y: size as _ };
    imageproc::drawing::draw_text_mut(&mut buf, ink, x as i32, y as i32, scale, &face, text);
    img.data = buf.into_raw();
    true
}

/// `image::imageops::resize` with `FilterType::Lanczos3` on an RGBA8 buffer:
/// the result has exactly the asked width and height, and its bytes depend
/// on the source and on those two numbers alone. The two buffers that the
/// resampling allocates must fit: the result, and one of the source's width
/// and the new height.
#[verifier::external_body]
pub(crate) fn resample(src: &Bitmap, width: u32, height: u32) -> (out: Bitmap)
    requires
        src.wf(),
        4 * (width * height) <= usize::MAX,
        4 * (src@.width * height) <= usize::MAX,
    ensures
        out.wf(),
        out@.width == width,
        out@.height == height,
        out@.data == lanczos3(src@, width as int, height as int),
{
    let view: image::ImageBuffer<image::Rgba<u8>, &[u8]> =
        image::ImageBuffer::from_raw(src.width, src.height, src.data.as_slice()).unwrap();
    let out = image::imageops::resize(&view, width, height, image::imageops::FilterType::Lanczos3);
    Bitmap { width, height, data: out.into_raw() }
}

/// `image::codecs::webp::WebPEncoder::new_lossless` and `write_image` into
/// memory: the encoder refuses a side of 0 or above 16384 and takes every
/// other image, and what it writes depends on the image alone. It begins
/// with the container's signature, so it is never empty.
#[verifier::external_body]
pub(crate) fn encode_webp(img: &Bitmap) -> (out: Encoded)
    requires
        img.wf(),
    ensures
        out is Ok <==> webp_takes(img@),
        out matches Ok(bytes) ==> bytes@ == webp_bytes(img@) && bytes@.len() > 0,
{
    let mut bytes = Vec::new();
    let target = std::io::Cursor::new(&mut bytes);
    let encoder = image::codecs::webp::WebPEncoder::new_lossless(target);
    let kind = image::ExtendedColorType::Rgba8;
    image::ImageEncoder::write_image(encoder, &img.data, img.width, img.height, kind)?;
    Ok(bytes)
}

/// `image::codecs::jpeg::JpegEncoder::new_with_quality` and `write_image`
/// into memory, on the image without its alpha channel
/// (`image::DynamicImage::to_rgb8`): the encoder refuses a side of 0 or
/// above 65535 and takes every other image, and what it writes depends on
/// the image and the quality alone. It begins with the marker that starts
/// an image, so it is never empty.
#[verifier::external_body]
pub(crate) fn encode_jpeg(img: &Bitmap, quality: u8) -> (out: Encoded)
    requires
        img.wf(),
    ensures
        out is Ok <==> jpeg_takes(img@),
        out matches Ok(bytes) ==> bytes@ == jpeg_bytes(img@, quality as int) && bytes@.len() > 0,
{
    let rgba = image::RgbaImage::from_raw(img.width, img.height, img.data.clone()).unwrap();
    let rgb = image::DynamicImage::ImageRgba8(rgba).to_rgb8();
    let mut bytes = Vec::new();
    let target = std::io::Cursor::new(&mut bytes);
    let encoder = image::codecs::jpeg::JpegEncoder::new_with_quality(target, quality);
    let kind = image::ExtendedColorType::Rgb8;
    image::ImageEncoder::write_image(encoder, &rgb, img.width, img.height, kind)?;
    Ok(bytes)
}

/// `image::load_from_memory` and `image::DynamicImage::into_rgba8`: the
/// image that the bytes encode, converted to RGBA8, or `None` where they
/// cannot be read. Which formats are read, and by which decoder, is a
/// matter of the process and not of the bytes alone, so all that is said
/// is what holds of every image that comes back: four bytes a pixel.
#[verifier::external_body]
pub(crate) fn decode(bytes: &[u8]) -> (out: Option<Bitmap>)
    ensures
        out matches Some(img) ==> img.wf(),
{
    let rgba = image::load_from_memory(bytes).ok()?.into_rgba8();
    let (width, height) = rgba.dimensions();
    Some(Bitmap { width, height, data: rgba.into_raw() })
}

/// `ab_glyph::FontRef::try_from_slice` and `ab_glyph::Font::height_unscaled`:
/// the font's ascent minus its descent, two 16-bit numbers of the file.
#[verifier::external_body]
pub(crate) fn font_height(font: &[u8]) -> (height: Option<i32>)
    ensures
        height is Some <==> font_height_units(font@) is Some,
        height matches Some(h) ==> Some(h as int) == font_height_units(font@) && is_font_units(
            h as int,
        ),
{
    let face = ab_glyph::FontRef::try_from_slice(font).ok()?;
    Some(ab_glyph::Font::height_unscaled(&face) as i32)
}

/// `ab_glyph::Font::glyph_id` and `ab_glyph::Font::h_advance_unscaled` for
/// each character of `text`, in order: the advance of its glyph, a 16-bit
/// number of the file. `None` where the bytes are not a font file.
#[verifier::external_body]
pub(crate) fn glyph_advances(font: &[u8], text: &str) -> (out: Option<Vec<u32>>)
    ensures
        out is Some <==> font_height_units(font@) is Some,
        out matches Some(units) ==> {
            &&& units@.len() == text@.len()
            &&& forall|i: int|
                0 <= i < units@.len() ==> #[trigger] units@[i] == glyph_advance_units(
                    font@,
                    text@[i],
                ) && is_font_units(units@[i] as int)
        },
{
    let face = ab_glyph::FontRef::try_from_slice(font).ok()?;
    let advance = |c| ab_glyph::Font::h_advance_unscaled(&face, ab_glyph::Font::glyph_id(&face, c));
    Some(text.chars().map(|c| advance(c) as u32).collect())
}

} // verus!
