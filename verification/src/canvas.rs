//! A canvas: a size, a background and layers in the order they are painted.

use vstd::prelude::*;
use crate::bitmap::{lemma_pixels_are, pixels_from_fn, Bitmap, Pixels};
use crate::color::Rgba;
use crate::error::CanvasError;
use crate::font::{Font, FontKey, FontSet};
use crate::bitmap::in_rect;
use crate::layer::{
    layer_views, lemma_layer_views_push, lemma_painted_by_view, lemma_rect_overwrites, Layer,
    LayerView, Scale,
};
use crate::raster::{
    encode_jpeg, encode_webp, jpeg_bytes, jpeg_takes, webp_bytes, webp_takes, JPEG_MAX_SIDE,
    WEBP_MAX_SIDE,
};

verus! {

/// The codec that a canvas is encoded with.
#[derive(Debug, Clone, Copy)]
pub enum ImageFormat {
    /// Lossless, without parameters.
    WebP,
    /// Lossy; `quality` runs from 0 to 100.
    Jpeg { quality: u8 },
}

impl Default for ImageFormat {
    fn default() -> (format: ImageFormat)
        ensures
            format == ImageFormat::WebP,
    {
        ImageFormat::WebP
    }
}

/// The format that is used where none is given.
pub open spec fn format_or_default(format: Option<ImageFormat>) -> ImageFormat {
    match format {
        Some(f) => f,
        None => ImageFormat::WebP,
    }
}

/// Whether the codec of a format takes sides of these lengths: 1 to 16384
/// for the lossless one, 1 to 65535 for the lossy one.
pub open spec fn format_takes(width: u32, height: u32, format: ImageFormat) -> bool {
    match format {
        ImageFormat::WebP => 1 <= width <= WEBP_MAX_SIDE && 1 <= height <= WEBP_MAX_SIDE,
        ImageFormat::Jpeg { .. } => 1 <= width <= JPEG_MAX_SIDE && 1 <= height <= JPEG_MAX_SIDE,
    }
}

/// Whether the codec of a format takes an image of this size.
pub open spec fn encodable(img: Pixels, format: ImageFormat) -> bool {
    match format {
        ImageFormat::WebP => webp_takes(img),
        ImageFormat::Jpeg { .. } => jpeg_takes(img),
    }
}

/// The file that the codec of a format writes for an image.
pub open spec fn encoded(img: Pixels, format: ImageFormat) -> Seq<u8> {
    match format {
        ImageFormat::WebP => webp_bytes(img),
        ImageFormat::Jpeg { quality } => jpeg_bytes(img, quality as int),
    }
}

/// Encodes a bitmap. The lossless codec takes sides from 1 to 16384, the
/// lossy one sides from 1 to 65535 and drops the alpha channel.
pub fn encode(img: &Bitmap, format: ImageFormat) -> (out: Result<Vec<u8>, CanvasError>)
    requires
        img.wf(),
    ensures
        out is Ok <==> encodable(img@, format),
        out matches Ok(bytes) ==> bytes@ == encoded(img@, format) && bytes@.len() > 0,
        out matches Err(e) ==> e is Encoding,
{
    let written = match format {
        ImageFormat::WebP => encode_webp(img),
        ImageFormat::Jpeg { quality } => encode_jpeg(img, quality),
    };
    match written {
        Ok(bytes) => Ok(bytes),
        Err(e) => Err(CanvasError::Encoding(e)),
    }
}

/// The buffer after the layers were painted on `start` in order, or the
/// error of the first layer that cannot be painted.
pub open spec fn paint_all(layers: Seq<Layer>, start: Pixels, fonts: &FontSet) -> Result<
    Pixels,
    CanvasError,
>
    decreases layers.len(),
{
    if layers.len() == 0 {
        Ok(start)
    } else {
        match paint_all(layers.drop_last(), start, fonts) {
            Ok(below) => layers.last().painted(below, fonts),
            Err(e) => Err(e),
        }
    }
}

/// The buffer of the given size in one colour, if a buffer can be that large.
pub open spec fn background(width: u32, height: u32, color: Rgba) -> Result<Pixels, CanvasError> {
    if 4 * (width * height) <= usize::MAX {
        Ok(pixels_from_fn(width as nat, height as nat, |x: int, y: int| color))
    } else {
        Err(CanvasError::TooLarge)
    }
}

/// An image in the making: its size, its background and its layers.
pub struct Canvas {
    pub width: u32,
    pub height: u32,
    pub bg_color: Rgba,
    pub layers: Vec<Layer>,
}

impl Canvas {
    /// Every layer is well formed.
    pub open spec fn wf(&self) -> bool {
        forall|i: int| 0 <= i < self.layers@.len() ==> (#[trigger] self.layers@[i]).wf()
    }

    /// What rendering gives: the background with every layer painted on it
    /// in the order of insertion.
    pub open spec fn rendered(&self, fonts: &FontSet) -> Result<Pixels, CanvasError> {
        match background(self.width, self.height, self.bg_color) {
            Ok(start) => paint_all(self.layers@, start, fonts),
            Err(e) => Err(e),
        }
    }

    /// A canvas of the given size, opaque black, without layers.
    pub fn new(width: u32, height: u32) -> (canvas: Canvas)
        ensures
            canvas.width == width,
            canvas.height == height,
            canvas.bg_color == (Rgba { r: 0, g: 0, b: 0, a: 255 }),
            canvas.layers@.len() == 0,
            canvas.wf(),
    {
        Canvas { width, height, bg_color: Rgba { r: 0, g: 0, b: 0, a: 255 }, layers: Vec::new() }
    }

    /// Replaces the background colour.
    pub fn set_bg_color(&mut self, color: Rgba)
        ensures
            final(self).bg_color == color,
            final(self).width == old(self).width,
            final(self).height == old(self).height,
            final(self).layers == old(self).layers,
    {
        self.bg_color = color;
    }

    /// Appends a layer: it is painted after all that were added before.
    pub fn add_layer(&mut self, layer: Layer)
        ensures
            final(self).layers@ == old(self).layers@.push(layer),
            layer_views(final(self).layers@) == layer_views(old(self).layers@).push(layer@),
            final(self).width == old(self).width,
            final(self).height == old(self).height,
            final(self).bg_color == old(self).bg_color,
            old(self).wf() && layer.wf() ==> final(self).wf(),
    {
        proof {
            lemma_layer_views_push(self.layers@, layer);
        }
        self.layers.push(layer);
    }

    /// Appends a rectangle layer.
    pub fn rect(&mut self, w: u32, h: u32, x: u32, y: u32, color: Rgba)
        ensures
            layer_views(final(self).layers@) == layer_views(old(self).layers@).push(
                LayerView::Rect { w: w as int, h: h as int, x: x as int, y: y as int, color },
            ),
            final(self).layers@.len() == old(self).layers@.len() + 1,
            final(self).width == old(self).width,
            final(self).height == old(self).height,
            final(self).bg_color == old(self).bg_color,
            old(self).wf() ==> final(self).wf(),
    {
        self.add_layer(Layer::Rect { size: (w, h), position: (x, y), color });
    }

    /// Appends a line layer.
    pub fn line(&mut self, x0: u32, y0: u32, x1: u32, y1: u32, width: u32, color: Rgba)
        ensures
            layer_views(final(self).layers@) == layer_views(old(self).layers@).push(
                LayerView::Line {
                    x0: x0 as int,
                    y0: y0 as int,
                    x1: x1 as int,
                    y1: y1 as int,
                    width: width as int,
                    color,
                },
            ),
            final(self).layers@.len() == old(self).layers@.len() + 1,
            final(self).width == old(self).width,
            final(self).height == old(self).height,
            final(self).bg_color == old(self).bg_color,
            old(self).wf() ==> final(self).wf(),
    {
        self.add_layer(Layer::Line { start: (x0, y0), end: (x1, y1), width, color });
    }

    /// Appends a text layer.
    pub fn text(&mut self, size: u32, x: u32, y: u32, color: Rgba, content: String, font: Font)
        ensures
            layer_views(final(self).layers@) == layer_views(old(self).layers@).push(
                LayerView::Text {
                    size: size as int,
                    x: x as int,
                    y: y as int,
                    color,
                    content: content@,
                    font: font@,
                },
            ),
            final(self).layers@.len() == old(self).layers@.len() + 1,
            final(self).width == old(self).width,
            final(self).height == old(self).height,
            final(self).bg_color == old(self).bg_color,
            old(self).wf() ==> final(self).wf(),
    {
        self.add_layer(Layer::Text { size, position: (x, y), color, content, font });
    }

    /// Appends an image layer.
    pub fn image(&mut self, scale: Scale, x: u32, y: u32, image: Bitmap)
        ensures
            layer_views(final(self).layers@) == layer_views(old(self).layers@).push(
                LayerView::Image { scale, x: x as int, y: y as int, image: image@ },
            ),
            final(self).layers@.len() == old(self).layers@.len() + 1,
            final(self).width == old(self).width,
            final(self).height == old(self).height,
            final(self).bg_color == old(self).bg_color,
            old(self).wf() && image.wf() ==> final(self).wf(),
    {
        self.add_layer(Layer::Image { scale, position: (x, y), image });
    }

    /// Renders the canvas: the background, then each layer in the order
    /// of insertion.
    pub fn render(&self, fonts: &FontSet) -> (out: Result<Bitmap, CanvasError>)
        requires
            self.wf(),
        ensures
            match self.rendered(fonts) {
                Ok(pixels) => out matches Ok(img) && img.wf() && img@ == pixels,
                Err(e) => out matches Err(err) && err == e,
            },
            out matches Ok(img) ==> img@.width == self.width && img@.height == self.height,
    {
        proof {
            if self.rendered(fonts) is Ok {
                lemma_rendered_size(self, fonts);
            }
        }
        let mut img = match Bitmap::filled(self.width, self.height, self.bg_color) {
            Some(b) => b,
            None => {
                return Err(CanvasError::TooLarge);
            },
        };
        let ghost start = img@;
        proof {
            let color = self.bg_color;
            lemma_pixels_are(img@, |x: int, y: int| color);
            assert(self.layers@.take(0) =~= Seq::<Layer>::empty());
        }
        let mut i: usize = 0;
        while i < self.layers.len()
            invariant
                i <= self.layers@.len(),
                self.wf(),
                img.wf(),
                background(self.width, self.height, self.bg_color) == Ok::<Pixels, CanvasError>(
                    start,
                ),
                paint_all(self.layers@.take(i as int), start, fonts) == Ok::<Pixels, CanvasError>(
                    img@,
                ),
            decreases self.layers@.len() - i,
        {
            let ghost below = img@;
            proof {
                let head = self.layers@.take(i + 1);
                assert(head.drop_last() =~= self.layers@.take(i as int));
                assert(head.last() == self.layers@[i as int]);
                assert(self.layers@[i as int].wf());
            }
            match self.layers[i].render(&mut img, fonts) {
                Ok(()) => {},
                Err(e) => {
                    proof {
                        lemma_paint_all_error(self.layers@, i + 1, start, fonts);
                    }
                    return Err(e);
                },
            }
            i = i + 1;
        }
        proof {
            assert(self.layers@.take(self.layers@.len() as int) =~= self.layers@);
        }
        Ok(img)
    }

    /// Renders the canvas and encodes the result, losslessly where no
    /// format is given.
    pub fn to_bytes(&self, format: Option<ImageFormat>, fonts: &FontSet) -> (out: Result<
        Vec<u8>,
        CanvasError,
    >)
        requires
            self.wf(),
        ensures
            match self.rendered(fonts) {
                Ok(pixels) => {
                    &&& out is Ok <==> format_takes(
                        self.width,
                        self.height,
                        format_or_default(format),
                    )
                    &&& out matches Ok(bytes) ==> bytes@ == encoded(
                        pixels,
                        format_or_default(format),
                    ) && bytes@.len() > 0
                    &&& out matches Err(e) ==> e is Encoding
                },
                Err(e) => out matches Err(err) && err == e,
            },
    {
        proof {
            if self.rendered(fonts) is Ok {
                lemma_rendered_size(self, fonts);
            }
        }
        let img = match self.render(fonts) {
            Ok(img) => img,
            Err(e) => {
                return Err(e);
            },
        };
        let format = match format {
            Some(f) => f,
            None => ImageFormat::default(),
        };
        encode(&img, format)
    }
}

/// What a canvas renders to has the canvas' width and height, and four
/// bytes for each pixel.
pub proof fn lemma_rendered_size(canvas: &Canvas, fonts: &FontSet)
    requires
        canvas.rendered(fonts) is Ok,
    ensures
        canvas.rendered(fonts)->Ok_0.width == canvas.width,
        canvas.rendered(fonts)->Ok_0.height == canvas.height,
{
    let color = canvas.bg_color;
    let start = background(canvas.width, canvas.height, color)->Ok_0;
    lemma_paint_all_size(canvas.layers@, start, fonts);
}

/// Encoding succeeds wherever rendering does and the sides of the canvas
/// are within what the codec takes: 1 to 16384 without a format or for the
/// lossless one, 1 to 65535 for the lossy one at any quality. Outside of
/// that the codec refuses.
pub proof fn lemma_encoding_succeeds(canvas: &Canvas, fonts: &FontSet, format: Option<ImageFormat>)
    requires
        canvas.rendered(fonts) is Ok,
    ensures
        encodable(canvas.rendered(fonts)->Ok_0, format_or_default(format)) <==> format_takes(
            canvas.width,
            canvas.height,
            format_or_default(format),
        ),
{
    lemma_rendered_size(canvas, fonts);
}

/// Once a layer cannot be painted, the error stays whatever follows.
pub proof fn lemma_paint_all_error(layers: Seq<Layer>, n: int, start: Pixels, fonts: &FontSet)
    requires
        0 <= n <= layers.len(),
        paint_all(layers.take(n), start, fonts) is Err,
    ensures
        paint_all(layers, start, fonts) == paint_all(layers.take(n), start, fonts),
    decreases layers.len() - n,
{
    if n == layers.len() {
        assert(layers.take(n) =~= layers);
    } else {
        let next = layers.take(n + 1);
        assert(next.drop_last() =~= layers.take(n));
        lemma_paint_all_error(layers, n + 1, start, fonts);
    }
}

/// Painting layers that are equal as plain values, over the same font
/// data, gives the same buffer.
pub proof fn lemma_paint_all_by_view(
    a: Seq<Layer>,
    b: Seq<Layer>,
    start: Pixels,
    fonts_a: &FontSet,
    fonts_b: &FontSet,
)
    requires
        layer_views(a) == layer_views(b),
        forall|key: FontKey| fonts_a.data(key) == fonts_b.data(key),
    ensures
        paint_all(a, start, fonts_a) == paint_all(b, start, fonts_b),
    decreases a.len(),
{
    assert(a.len() == layer_views(a).len());
    assert(b.len() == layer_views(b).len());
    if a.len() > 0 {
        assert(layer_views(a.drop_last()) =~= layer_views(a).drop_last());
        assert(layer_views(b.drop_last()) =~= layer_views(b).drop_last());
        lemma_paint_all_by_view(a.drop_last(), b.drop_last(), start, fonts_a, fonts_b);
        assert(a.last()@ == layer_views(a).last());
        assert(b.last()@ == layer_views(b).last());
        if paint_all(a.drop_last(), start, fonts_a) is Ok {
            let below = paint_all(a.drop_last(), start, fonts_a)->Ok_0;
            lemma_painted_by_view(a.last(), b.last(), below, fonts_a, fonts_b);
        }
    }
}

/// Rendering is deterministic: what a canvas renders to depends on its
/// size, its background, its layers as plain values and the font data
/// alone. Two renderings of the same canvas over the same fonts are the
/// same bytes, and so are renderings of canvases that were built alike.
pub proof fn lemma_render_deterministic(
    a: &Canvas,
    b: &Canvas,
    fonts_a: &FontSet,
    fonts_b: &FontSet,
)
    requires
        a.width == b.width,
        a.height == b.height,
        a.bg_color == b.bg_color,
        layer_views(a.layers@) == layer_views(b.layers@),
        forall|key: FontKey| fonts_a.data(key) == fonts_b.data(key),
    ensures
        a.rendered(fonts_a) == b.rendered(fonts_b),
{
    if background(a.width, a.height, a.bg_color) is Ok {
        let bg_a = background(a.width, a.height, a.bg_color)->Ok_0;
        let bg_b = background(b.width, b.height, b.bg_color)->Ok_0;
        assert(bg_a.data =~= bg_b.data);
        lemma_paint_all_by_view(a.layers@, b.layers@, bg_a, fonts_a, fonts_b);
    }
}

/// Later layers take precedence: where a canvas renders and its last layer
/// is a rectangle, every pixel of the result inside that rectangle has its
/// colour, whatever the layers before it painted there.
pub proof fn lemma_last_rect_wins(canvas: &Canvas, fonts: &FontSet, x: int, y: int)
    requires
        canvas.layers@.len() > 0,
        canvas.layers@.last() is Rect,
        canvas.rendered(fonts) is Ok,
        canvas.rendered(fonts)->Ok_0.contains(x, y),
    ensures
        canvas.layers@.last() matches Layer::Rect { size, position, color } && (in_rect(
            x,
            y,
            position.0 as int,
            position.1 as int,
            size.0 as int,
            size.1 as int,
        ) ==> canvas.rendered(fonts)->Ok_0.at(x, y) == color),
{
    let start = background(canvas.width, canvas.height, canvas.bg_color)->Ok_0;
    let below = paint_all(canvas.layers@.drop_last(), start, fonts)->Ok_0;
    let last = canvas.layers@.last();
    match last {
        Layer::Rect { size, position, color } => {
            crate::bitmap::lemma_pixels_from_fn(
                below.width,
                below.height,
                |x: int, y: int|
                    if in_rect(
                        x,
                        y,
                        position.0 as int,
                        position.1 as int,
                        size.0 as int,
                        size.1 as int,
                    ) {
                        color
                    } else {
                        below.at(x, y)
                    },
            );
        },
        _ => {},
    }
}

/// Of two rectangles added one after the other, the second shows where they
/// overlap: after `a` then `b` were painted over any layers, every pixel
/// inside both has the colour of `b`.
pub proof fn lemma_rect_precedence(
    under: Seq<Layer>,
    a: Layer,
    b: Layer,
    start: Pixels,
    fonts: &FontSet,
    x: int,
    y: int,
)
    requires
        a is Rect,
        b is Rect,
        paint_all(under, start, fonts) is Ok,
        start.contains(x, y),
        a matches Layer::Rect { size, position, .. } && in_rect(
            x,
            y,
            position.0 as int,
            position.1 as int,
            size.0 as int,
            size.1 as int,
        ),
        b matches Layer::Rect { size, position, .. } && in_rect(
            x,
            y,
            position.0 as int,
            position.1 as int,
            size.0 as int,
            size.1 as int,
        ),
    ensures
        paint_all(under.push(a).push(b), start, fonts) matches Ok(after) && b matches Layer::Rect {
            color,
            ..
        } && after.at(x, y) == color,
{
    lemma_paint_all_size(under, start, fonts);
    let base = paint_all(under, start, fonts)->Ok_0;
    let with_a = under.push(a);
    assert(with_a.drop_last() =~= under);
    assert(with_a.last() == a);
    lemma_rect_overwrites(a, base, fonts, x, y);
    let mid = a.painted(base, fonts)->Ok_0;
    assert(paint_all(with_a, start, fonts) == Ok::<Pixels, CanvasError>(mid));
    let with_b = with_a.push(b);
    assert(with_b.drop_last() =~= with_a);
    assert(with_b.last() == b);
    lemma_rect_overwrites(b, mid, fonts, x, y);
    assert(paint_all(with_b, start, fonts) == b.painted(mid, fonts));
}

/// Painting keeps the size of the buffer.
pub proof fn lemma_paint_all_size(layers: Seq<Layer>, start: Pixels, fonts: &FontSet)
    requires
        paint_all(layers, start, fonts) is Ok,
    ensures
        paint_all(layers, start, fonts)->Ok_0.same_size(start),
    decreases layers.len(),
{
    if layers.len() > 0 {
        lemma_paint_all_size(layers.drop_last(), start, fonts);
        let below = paint_all(layers.drop_last(), start, fonts)->Ok_0;
        crate::layer::lemma_painted_size(layers.last(), below, fonts);
    }
}

} // verus!
