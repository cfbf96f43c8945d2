//! The drawing primitives and what each does to a pixel buffer.

use vstd::prelude::*;
use crate::bitmap::{
    buffer_len, composite_at, in_rect, lemma_pixels_are, lemma_pixels_from_fn, pixels_from_fn,
    Bitmap, Pixels,
};
use crate::color::Rgba;
use crate::error::CanvasError;
use crate::font::{Font, FontKey, FontSet};
use crate::raster::{
    draw_segment, draw_text, font_height, font_height_units, lanczos3, resample, segment_pixels,
    text_fits, text_stamp, COORD_LIMIT, FONT_UNIT_SPAN, SIDE_LIMIT,
};

verus! {

/// A scale factor as a fraction.
#[derive(Clone, Copy, Debug, PartialEq, Eq, Structural)]
pub struct Scale {
    pub num: u32,
    pub den: u32,
}

/// `side` times `num / den`, rounded to the nearest whole number, halves upwards.
pub open spec fn scaled_side(side: int, num: int, den: int) -> int {
    (2 * side * num + den) / (2 * den)
}

impl Scale {
    /// The scale that leaves sizes as they are.
    pub fn identity() -> (s: Scale)
        ensures
            s == (Scale { num: 1, den: 1 }),
    {
        Scale { num: 1, den: 1 }
    }

    /// The length of a side after scaling, if the scale has a denominator
    /// and the length fits in 32 bits.
    pub open spec fn spec_apply(self, side: int) -> Option<int> {
        if self.den == 0 || scaled_side(side, self.num as int, self.den as int) > u32::MAX {
            None
        } else {
            Some(scaled_side(side, self.num as int, self.den as int))
        }
    }

    /// Scales a side: `round(side * num / den)`.
    pub fn apply(&self, side: u32) -> (out: Option<u32>)
        ensures
            out is Some <==> self.spec_apply(side as int) is Some,
            out matches Some(v) ==> Some(v as int) == self.spec_apply(side as int),
    {
        if self.den == 0 {
            return None;
        }
        assert(0 <= side * self.num <= 0xffff_ffff * 0xffff_ffff) by (nonlinear_arith)
            requires
                0 <= side <= 0xffff_ffff,
                0 <= self.num <= 0xffff_ffff,
        ;
        assert(2 * side * self.num == 2 * (side * self.num)) by (nonlinear_arith);
        let product: u128 = (side as u128) * (self.num as u128);
        let rounded: u128 = (2 * product + self.den as u128) / (2 * (self.den as u128));
        if rounded > 0xffff_ffff {
            None
        } else {
            Some(rounded as u32)
        }
    }
}

/// One drawing primitive with its parameters.
#[allow(inconsistent_fields)]
pub enum Layer {
    /// An opaque filled rectangle.
    Rect { size: (u32, u32), position: (u32, u32), color: Rgba },
    /// A line of thickness `width`: that many one-pixel segments, each one
    /// row below the one before.
    Line { start: (u32, u32), end: (u32, u32), width: u32, color: Rgba },
    /// Text of `size` pixels, with the top of its line at `position`.
    Text { size: u32, position: (u32, u32), color: Rgba, content: String, font: Font },
    /// A bitmap, resized by `scale` and composited at `position`.
    Image { scale: Scale, position: (u32, u32), image: Bitmap },
}

/// A layer as a plain value.
#[allow(inconsistent_fields)]
pub enum LayerView {
    Rect { w: int, h: int, x: int, y: int, color: Rgba },
    Line { x0: int, y0: int, x1: int, y1: int, width: int, color: Rgba },
    Text { size: int, x: int, y: int, color: Rgba, content: Seq<char>, font: FontKey },
    Image { scale: Scale, x: int, y: int, image: Pixels },
}

impl View for Layer {
    type V = LayerView;

    open spec fn view(&self) -> LayerView {
        match self {
            Layer::Rect { size, position, color } => LayerView::Rect {
                w: size.0 as int,
                h: size.1 as int,
                x: position.0 as int,
                y: position.1 as int,
                color: *color,
            },
            Layer::Line { start, end, width, color } => LayerView::Line {
                x0: start.0 as int,
                y0: start.1 as int,
                x1: end.0 as int,
                y1: end.1 as int,
                width: *width as int,
                color: *color,
            },
            Layer::Text { size, position, color, content, font } => LayerView::Text {
                size: *size as int,
                x: position.0 as int,
                y: position.1 as int,
                color: *color,
                content: content@,
                font: font@,
            },
            Layer::Image { scale, position, image } => LayerView::Image {
                scale: *scale,
                x: position.0 as int,
                y: position.1 as int,
                image: image@,
            },
        }
    }
}

/// The layers of a list as plain values.
pub open spec fn layer_views(layers: Seq<Layer>) -> Seq<LayerView> {
    layers.map_values(|l: Layer| l@)
}

/// The views of a list with one more layer are the views of the list
/// with the view of that layer.
pub proof fn lemma_layer_views_push(layers: Seq<Layer>, layer: Layer)
    ensures
        layer_views(layers.push(layer)) == layer_views(layers).push(layer@),
{
    assert(layer_views(layers.push(layer)) =~= layer_views(layers).push(layer@));
}

/// A line of thickness `width` can be drawn on a buffer: every segment
/// stays below the rasteriser's coordinate limit, and the sides of the
/// buffer are within what the rasteriser tests pixels against. A line
/// without thickness can always be: nothing is drawn.
pub open spec fn line_in_range(
    start: (u32, u32),
    end: (u32, u32),
    width: u32,
    buffer: Pixels,
) -> bool {
    width == 0 || (start.0 < COORD_LIMIT && end.0 < COORD_LIMIT && start.1 + width <= COORD_LIMIT
        && end.1 + width <= COORD_LIMIT && buffer.width <= SIDE_LIMIT && buffer.height
        <= SIDE_LIMIT)
}

/// `(x, y)` is visited by one of the first `count` segments of a line.
pub open spec fn on_line(start: (u32, u32), end: (u32, u32), count: int, x: int, y: int) -> bool {
    exists|k: int|
        0 <= k < count && #[trigger] segment_pixels(
            start.0 as int,
            start.1 + k,
            end.0 as int,
            end.1 + k,
        ).contains((x, y))
}

/// Computes [`text_fits`].
pub fn text_can_fit(x: u32, y: u32, size: u32, len: usize, height_units: i32) -> (fits: bool)
    ensures
        fits == text_fits(x as int, y as int, size as int, len as int, height_units as int),
{
    if x >= COORD_LIMIT || y >= COORD_LIMIT || height_units <= 0 {
        return false;
    }
    assert(0 <= (len + 1) * size <= 0x1_0000_0000_0000_0000 * 0xffff_ffff) by (nonlinear_arith)
        requires
            0 <= len + 1 <= 0x1_0000_0000_0000_0000,
            0 <= size <= 0xffff_ffff,
    ;
    let reach: u128 = (len as u128 + 1) * (size as u128) * (FONT_UNIT_SPAN as u128);
    assert(0 <= COORD_LIMIT * height_units <= 0x4000_0000 * 0x7fff_ffff) by (nonlinear_arith)
        requires
            COORD_LIMIT == 0x4000_0000,
            0 < height_units <= 0x7fff_ffff,
    ;
    let room: u128 = (COORD_LIMIT as u128) * (height_units as u128);
    reach < room
}

/// The size of an image after scaling: each side is `round(side * scale)`.
/// An error where the scale has no denominator, a side leaves 32 bits, or
/// the resized image cannot be held.
pub open spec fn resized_dims(image: Pixels, scale: Scale) -> Result<(int, int), CanvasError> {
    match (scale.spec_apply(image.width as int), scale.spec_apply(image.height as int)) {
        (Some(w), Some(h)) => if 4 * (w * h) <= usize::MAX && 4 * (image.width * h)
            <= usize::MAX {
            Ok((w, h))
        } else {
            Err(CanvasError::TooLarge)
        },
        _ => Err(CanvasError::OutOfRange),
    }
}

/// An image after resizing by a scale.
pub open spec fn resized(image: Pixels, scale: Scale) -> Result<Pixels, CanvasError> {
    match resized_dims(image, scale) {
        Ok((w, h)) => Ok(Pixels { width: w as nat, height: h as nat, data: lanczos3(image, w, h) }),
        Err(e) => Err(e),
    }
}

/// Resizes an image by a scale with the Lanczos filter. The result is
/// exactly `round(width * scale)` by `round(height * scale)`.
pub fn resize(image: &Bitmap, scale: Scale) -> (out: Result<Bitmap, CanvasError>)
    requires
        image.wf(),
    ensures
        out matches Ok(img) ==> img.wf() && Ok::<Pixels, CanvasError>(img@) == resized(
            image@,
            scale,
        ),
        out matches Err(e) ==> Err::<Pixels, CanvasError>(e) == resized(image@, scale),
        out matches Ok(img) ==> img@.width == scaled_side(
            image@.width as int,
            scale.num as int,
            scale.den as int,
        ) && img@.height == scaled_side(image@.height as int, scale.num as int, scale.den as int),
{
    let (w, h) = match (scale.apply(image.width()), scale.apply(image.height())) {
        (Some(w), Some(h)) => (w, h),
        _ => {
            return Err(CanvasError::OutOfRange);
        },
    };
    if buffer_len(w, h).is_none() || buffer_len(image.width(), h).is_none() {
        return Err(CanvasError::TooLarge);
    }
    Ok(resample(image, w, h))
}

impl Layer {
    /// The bitmap of an image layer is well formed.
    pub open spec fn wf(&self) -> bool {
        match self {
            Layer::Image { image, .. } => image.wf(),
            _ => true,
        }
    }

    /// The buffer after this layer was painted on `before`, or why it
    /// cannot be painted.
    pub open spec fn painted(&self, before: Pixels, fonts: &FontSet) -> Result<
        Pixels,
        CanvasError,
    > {
        match self {
            Layer::Rect { size, position, color } => Ok(
                pixels_from_fn(
                    before.width,
                    before.height,
                    |x: int, y: int|
                        if in_rect(
                            x,
                            y,
                            position.0 as int,
                            position.1 as int,
                            size.0 as int,
                            size.1 as int,
                        ) {
                            *color
                        } else {
                            before.at(x, y)
                        },
                ),
            ),
            Layer::Line { start, end, width, color } => if line_in_range(
                *start,
                *end,
                *width,
                before,
            ) {
                Ok(
                    pixels_from_fn(
                        before.width,
                        before.height,
                        |x: int, y: int|
                            if on_line(*start, *end, *width as int, x, y) {
                                *color
                            } else {
                                before.at(x, y)
                            },
                    ),
                )
            } else {
                Err(CanvasError::OutOfRange)
            },
            Layer::Text { size, position, color, content, font } => match fonts.data(font@) {
                None => Err(CanvasError::FontMissing),
                Some(bytes) => match font_height_units(bytes) {
                    None => Err(CanvasError::FontInvalid),
                    Some(height) => if !text_fits(
                        position.0 as int,
                        position.1 as int,
                        *size as int,
                        content@.len() as int,
                        height,
                    ) {
                        Err(CanvasError::OutOfRange)
                    } else {
                        match text_stamp(
                            before,
                            *color,
                            position.0 as int,
                            position.1 as int,
                            *size as int,
                            bytes,
                            content@,
                        ) {
                            Some(data) => Ok(
                                Pixels { width: before.width, height: before.height, data },
                            ),
                            None => Err(CanvasError::FontInvalid),
                        }
                    },
                },
            },
            Layer::Image { scale, position, image } => match resized(image@, *scale) {
                Ok(top) => Ok(
                    pixels_from_fn(
                        before.width,
                        before.height,
                        |x: int, y: int|
                            composite_at(before, top, position.0 as int, position.1 as int, x, y),
                    ),
                ),
                Err(e) => Err(e),
            },
        }
    }

    /// Paints this layer on `img`. On an error `img` is left as it was.
    pub fn render(&self, img: &mut Bitmap, fonts: &FontSet) -> (out: Result<(), CanvasError>)
        requires
            self.wf(),
            old(img).wf(),
        ensures
            final(img).wf(),
            match self.painted(old(img)@, fonts) {
                Ok(after) => out is Ok && final(img)@ == after,
                Err(e) => out == Err::<(), CanvasError>(e) && final(img)@ == old(img)@,
            },
    {
        let ghost before = img@;
        match self {
            Layer::Rect { size, position, color } => {
                img.fill_rect(position.0, position.1, size.0, size.1, *color);
                proof {
                    lemma_pixels_are(
                        img@,
                        |x: int, y: int|
                            if in_rect(
                                x,
                                y,
                                position.0 as int,
                                position.1 as int,
                                size.0 as int,
                                size.1 as int,
                            ) {
                                *color
                            } else {
                                before.at(x, y)
                            },
                    );
                }
                Ok(())
            },
            Layer::Line { start, end, width, color } => {
                if *width == 0 {
                    proof {
                        lemma_pixels_are(
                            img@,
                            |x: int, y: int|
                                if on_line(*start, *end, *width as int, x, y) {
                                    *color
                                } else {
                                    before.at(x, y)
                                },
                        );
                    }
                    return Ok(());
                }
                let fits = start.0 < COORD_LIMIT && end.0 < COORD_LIMIT && *width <= COORD_LIMIT
                    && start.1 <= COORD_LIMIT - *width && end.1 <= COORD_LIMIT - *width
                    && img.width() <= SIDE_LIMIT && img.height() <= SIDE_LIMIT;
                if !fits {
                    return Err(CanvasError::OutOfRange);
                }
                let mut k: u32 = 0;
                while k < *width
                    invariant
                        k <= *width,
                        line_in_range(*start, *end, *width, before),
                        *width > 0,
                        img.wf(),
                        img@.same_size(before),
                        forall|x: int, y: int|
                            before.contains(x, y) ==> #[trigger] img@.at(x, y) == (if on_line(
                                *start,
                                *end,
                                k as int,
                                x,
                                y,
                            ) {
                                *color
                            } else {
                                before.at(x, y)
                            }),
                    decreases *width - k,
                {
                    let ghost prev = img@;
                    draw_segment(img, start.0, start.1 + k, end.0, end.1 + k, *color);
                    proof {
                        let seg = segment_pixels(
                            start.0 as int,
                            start.1 + k,
                            end.0 as int,
                            end.1 + k,
                        );
                        assert forall|x: int, y: int| before.contains(x, y) implies #[trigger] img@.at(
                            x,
                            y,
                        ) == (if on_line(*start, *end, k + 1, x, y) {
                            *color
                        } else {
                            before.at(x, y)
                        }) by {
                            assert(prev.contains(x, y));
                            if seg.contains((x, y)) {
                                assert(on_line(*start, *end, k + 1, x, y));
                            } else if on_line(*start, *end, k as int, x, y) {
                                assert(on_line(*start, *end, k + 1, x, y));
                            } else if on_line(*start, *end, k + 1, x, y) {
                                let j = choose|j: int|
                                    0 <= j < k + 1 && #[trigger] segment_pixels(
                                        start.0 as int,
                                        start.1 + j,
                                        end.0 as int,
                                        end.1 + j,
                                    ).contains((x, y));
                                assert(j < k);
                                assert(on_line(*start, *end, k as int, x, y));
                            }
                        }
                    }
                    k = k + 1;
                }
                proof {
                    lemma_pixels_are(
                        img@,
                        |x: int, y: int|
                            if on_line(*start, *end, *width as int, x, y) {
                                *color
                            } else {
                                before.at(x, y)
                            },
                    );
                }
                Ok(())
            },
            Layer::Text { size, position, color, content, font } => {
                let bytes = match fonts.get(font) {
                    Some(b) => b,
                    None => {
                        return Err(CanvasError::FontMissing);
                    },
                };
                let text = content.as_str();
                let height = match font_height(bytes.as_slice()) {
                    Some(h) => h,
                    None => {
                        return Err(CanvasError::FontInvalid);
                    },
                };
                if !text_can_fit(position.0, position.1, *size, text.unicode_len(), height) {
                    return Err(CanvasError::OutOfRange);
                }
                if draw_text(img, *color, position.0, position.1, *size, bytes.as_slice(), text) {
                    Ok(())
                } else {
                    Err(CanvasError::FontInvalid)
                }
            },
            Layer::Image { scale, position, image } => {
                let top = match resize(image, *scale) {
                    Ok(t) => t,
                    Err(e) => {
                        return Err(e);
                    },
                };
                img.overlay(&top, position.0, position.1);
                proof {
                    lemma_pixels_are(
                        img@,
                        |x: int, y: int|
                            composite_at(before, top@, position.0 as int, position.1 as int, x, y),
                    );
                }
                Ok(())
            },
        }
    }
}

/// What a layer paints depends on its values and on the font data alone:
/// layers that are equal as plain values paint the same on the same
/// buffer, over font sets that hold the same data.
pub proof fn lemma_painted_by_view(
    a: Layer,
    b: Layer,
    before: Pixels,
    fonts_a: &FontSet,
    fonts_b: &FontSet,
)
    requires
        a@ == b@,
        forall|key: FontKey| fonts_a.data(key) == fonts_b.data(key),
    ensures
        a.painted(before, fonts_a) == b.painted(before, fonts_b),
{
    match (a, b) {
        (Layer::Rect { .. }, Layer::Rect { .. }) => {
            let pa = a.painted(before, fonts_a)->Ok_0;
            let pb = b.painted(before, fonts_b)->Ok_0;
            assert(pa.data =~= pb.data);
        },
        (Layer::Line { start, end, width, .. }, Layer::Line { .. }) => {
            if line_in_range(start, end, width, before) {
                let pa = a.painted(before, fonts_a)->Ok_0;
                let pb = b.painted(before, fonts_b)->Ok_0;
                assert(pa.data =~= pb.data);
            }
        },
        (Layer::Text { font, .. }, Layer::Text { .. }) => {
            assert(fonts_a.data(font@) == fonts_b.data(font@));
        },
        (Layer::Image { scale, image, .. }, Layer::Image { .. }) => {
            if resized(image@, scale) is Ok {
                let pa = a.painted(before, fonts_a)->Ok_0;
                let pb = b.painted(before, fonts_b)->Ok_0;
                assert(pa.data =~= pb.data);
            }
        },
        _ => {},
    }
}

/// Painting a layer keeps the size of the buffer.
pub proof fn lemma_painted_size(layer: Layer, before: Pixels, fonts: &FontSet)
    requires
        layer.painted(before, fonts) is Ok,
    ensures
        layer.painted(before, fonts)->Ok_0.same_size(before),
{
    match layer {
        Layer::Rect { .. } => {},
        Layer::Line { .. } => {},
        Layer::Text { .. } => {},
        Layer::Image { .. } => {},
    }
}

/// A rectangle layer overwrites: every pixel of the buffer that lies in the
/// rectangle has the rectangle's colour afterwards, whatever was there, and
/// every other pixel is as before.
pub proof fn lemma_rect_overwrites(layer: Layer, before: Pixels, fonts: &FontSet, x: int, y: int)
    requires
        layer is Rect,
        before.contains(x, y),
    ensures
        layer.painted(before, fonts) is Ok,
        layer.painted(before, fonts)->Ok_0.same_size(before),
        layer.painted(before, fonts)->Ok_0.wf(),
        layer matches Layer::Rect { size, position, color } && layer.painted(before, fonts)->Ok_0.at(
            x,
            y,
        ) == (if in_rect(
            x,
            y,
            position.0 as int,
            position.1 as int,
            size.0 as int,
            size.1 as int,
        ) {
            color
        } else {
            before.at(x, y)
        }),
{
    match layer {
        Layer::Rect { size, position, color } => {
            lemma_pixels_from_fn(
                before.width,
                before.height,
                |x: int, y: int|
                    if in_rect(
                        x,
                        y,
                        position.0 as int,
                        position.1 as int,
                        size.0 as int,
                        size.1 as int,
                    ) {
                        color
                    } else {
                        before.at(x, y)
                    },
            );
        },
        _ => {},
    }
}

/// Alpha compositing of an image layer: under a pixel of the resized image
/// that is fully transparent the buffer stays as it was, and under one that
/// is fully opaque the buffer takes that pixel.
pub proof fn lemma_image_alpha(layer: Layer, before: Pixels, fonts: &FontSet, x: int, y: int)
    requires
        layer is Image,
        layer.painted(before, fonts) is Ok,
        before.contains(x, y),
    ensures
        layer matches Layer::Image { scale, position, image } && resized(image@, scale) matches Ok(
            top,
        ) && ({
            let after = layer.painted(before, fonts)->Ok_0;
            let src = top.at(x - position.0, y - position.1);
            &&& after.same_size(before)
            &&& !top.contains(x - position.0, y - position.1) ==> after.at(x, y) == before.at(x, y)
            &&& top.contains(x - position.0, y - position.1) && src.a == 0 ==> after.at(x, y)
                == before.at(x, y)
            &&& top.contains(x - position.0, y - position.1) && src.a == 255 ==> after.at(x, y)
                == src
        }),
{
    match layer {
        Layer::Image { scale, position, image } => {
            let top = resized(image@, scale)->Ok_0;
            lemma_pixels_from_fn(
                before.width,
                before.height,
                |x: int, y: int|
                    composite_at(before, top, position.0 as int, position.1 as int, x, y),
            );
        },
        _ => {},
    }
}

/// Resizing is exact: an image layer composites a bitmap whose sides are
/// the sides of its image times the scale, each rounded to the nearest
/// whole number.
pub proof fn lemma_resize_exact(image: Pixels, scale: Scale)
    requires
        resized(image, scale) is Ok,
    ensures
        scale.den > 0,
        resized(image, scale)->Ok_0.width == scaled_side(
            image.width as int,
            scale.num as int,
            scale.den as int,
        ),
        resized(image, scale)->Ok_0.height == scaled_side(
            image.height as int,
            scale.num as int,
            scale.den as int,
        ),
{
}

} // verus!
