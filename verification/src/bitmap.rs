//! The pixel buffer that layers are painted on.

use vstd::prelude::*;
use crate::color::Rgba;
use crate::raster::{blend, blend_mixed};

verus! {

/// What a bitmap holds: its dimensions and its bytes, four per pixel
/// (red, green, blue, alpha), row by row from the top.
pub struct Pixels {
    pub width: nat,
    pub height: nat,
    pub data: Seq<u8>,
}

impl Pixels {
    /// There are exactly four bytes for each pixel.
    pub open spec fn wf(self) -> bool {
        self.data.len() == 4 * (self.width * self.height)
    }

    /// `(x, y)` names a pixel of this bitmap.
    pub open spec fn contains(self, x: int, y: int) -> bool {
        0 <= x < self.width && 0 <= y < self.height
    }

    /// Position of pixel `(x, y)` in row-major order.
    pub open spec fn index(self, x: int, y: int) -> int {
        y * self.width + x
    }

    /// The pixel stored at position `i` in row-major order.
    pub open spec fn nth(self, i: int) -> Rgba {
        Rgba {
            r: self.data[4 * i],
            g: self.data[4 * i + 1],
            b: self.data[4 * i + 2],
            a: self.data[4 * i + 3],
        }
    }

    /// The pixel at column `x` of row `y`.
    pub open spec fn at(self, x: int, y: int) -> Rgba {
        self.nth(self.index(x, y))
    }

    /// Same dimensions as `other`.
    pub open spec fn same_size(self, other: Pixels) -> bool {
        self.width == other.width && self.height == other.height
    }

    /// Every pixel has the colour `c`.
    pub open spec fn uniform(self, c: Rgba) -> bool {
        forall|x: int, y: int| self.contains(x, y) ==> #[trigger] self.at(x, y) == c
    }
}

/// Channel `c` (0 for red to 3 for alpha) of a colour.
pub open spec fn channel(p: Rgba, c: int) -> u8 {
    if c == 0 {
        p.r
    } else if c == 1 {
        p.g
    } else if c == 2 {
        p.b
    } else {
        p.a
    }
}

/// The bitmap of the given size whose pixel at `(x, y)` is `f(x, y)`.
pub open spec fn pixels_from_fn(width: nat, height: nat, f: spec_fn(int, int) -> Rgba) -> Pixels {
    Pixels {
        width,
        height,
        data: Seq::new(
            4 * (width * height),
            |j: int| channel(f((j / 4) % (width as int), (j / 4) / (width as int)), j % 4),
        ),
    }
}

/// Position `i` below `w * h` is the pixel in column `i % w` of row `i / w`.
pub proof fn lemma_index_split(i: int, w: int, h: int)
    requires
        0 <= i < w * h,
        0 <= w,
        0 <= h,
    ensures
        0 < w,
        0 <= i % w < w,
        0 <= i / w < h,
        (i / w) * w + i % w == i,
{
    assert(w != 0) by (nonlinear_arith)
        requires
            0 <= i < w * h,
    ;
    vstd::arithmetic::div_mod::lemma_fundamental_div_mod(i, w);
    vstd::arithmetic::div_mod::lemma_mod_bound(i, w);
    let q = i / w;
    let r = i % w;
    assert(q * w == w * q) by (nonlinear_arith);
    assert(q >= 0) by (nonlinear_arith)
        requires
            w * q + r == i,
            0 <= r < w,
            0 <= i,
    ;
    assert(q < h) by (nonlinear_arith)
        requires
            w * q + r == i,
            0 <= r,
            i < w * h,
            0 < w,
    ;
}

/// The pixels of [`pixels_from_fn`] are the values of the function.
pub proof fn lemma_pixels_from_fn(width: nat, height: nat, f: spec_fn(int, int) -> Rgba)
    ensures
        pixels_from_fn(width, height, f).wf(),
        forall|x: int, y: int|
            pixels_from_fn(width, height, f).contains(x, y) ==> #[trigger] pixels_from_fn(
                width,
                height,
                f,
            ).at(x, y) == f(x, y),
{
    let p = pixels_from_fn(width, height, f);
    assert forall|x: int, y: int| p.contains(x, y) implies #[trigger] p.at(x, y) == f(x, y) by {
        let w = width as int;
        let i = y * w + x;
        lemma_index_bounds(x, y, w, height as int);
        lemma_index_split(i, w, height as int);
        lemma_index_injective(i % w, i / w, x, y, w);
        assert((4 * i) / 4 == i && (4 * i) % 4 == 0);
        assert((4 * i + 1) / 4 == i && (4 * i + 1) % 4 == 1);
        assert((4 * i + 2) / 4 == i && (4 * i + 2) % 4 == 2);
        assert((4 * i + 3) / 4 == i && (4 * i + 3) % 4 == 3);
    }
}

/// A well-formed bitmap is determined by its size and its pixels.
pub proof fn lemma_pixels_ext(a: Pixels, b: Pixels)
    requires
        a.wf(),
        b.wf(),
        a.same_size(b),
        forall|x: int, y: int| a.contains(x, y) ==> #[trigger] a.at(x, y) == b.at(x, y),
    ensures
        a == b,
{
    let w = a.width as int;
    let h = a.height as int;
    assert forall|j: int| 0 <= j < a.data.len() implies a.data[j] == b.data[j] by {
        let i = j / 4;
        assert(0 <= i < w * h);
        lemma_index_split(i, w, h);
        let x = i % w;
        let y = i / w;
        assert(a.contains(x, y));
        assert(a.at(x, y) == b.at(x, y));
        assert(a.index(x, y) == i);
        assert(j == 4 * i || j == 4 * i + 1 || j == 4 * i + 2 || j == 4 * i + 3);
    }
    assert(a.data =~= b.data);
}

/// A well-formed bitmap whose pixels are the values of `f` is [`pixels_from_fn`] of `f`.
pub proof fn lemma_pixels_are(p: Pixels, f: spec_fn(int, int) -> Rgba)
    requires
        p.wf(),
        forall|x: int, y: int| p.contains(x, y) ==> #[trigger] p.at(x, y) == f(x, y),
    ensures
        p == pixels_from_fn(p.width, p.height, f),
{
    lemma_pixels_from_fn(p.width, p.height, f);
    lemma_pixels_ext(p, pixels_from_fn(p.width, p.height, f));
}

/// A pixel inside a `w`-by-`h` grid has a row-major position below `w * h`.
pub proof fn lemma_index_bounds(x: int, y: int, w: int, h: int)
    requires
        0 <= x < w,
        0 <= y < h,
    ensures
        0 <= y * w + x < w * h,
{
    assert(y * w >= 0) by (nonlinear_arith)
        requires
            y >= 0,
            w >= 0,
    ;
    assert(y * w + w <= h * w) by (nonlinear_arith)
        requires
            y + 1 <= h,
            w >= 0,
    ;
    assert(h * w == w * h) by (nonlinear_arith);
}

/// Two different pixels of a grid have different row-major positions.
pub proof fn lemma_index_injective(x1: int, y1: int, x2: int, y2: int, w: int)
    requires
        0 <= x1 < w,
        0 <= x2 < w,
        y1 * w + x1 == y2 * w + x2,
    ensures
        x1 == x2,
        y1 == y2,
{
    if y1 < y2 {
        assert(y1 * w + w <= y2 * w) by (nonlinear_arith)
            requires
                y1 + 1 <= y2,
                w >= 0,
        ;
    } else if y2 < y1 {
        assert(y2 * w + w <= y1 * w) by (nonlinear_arith)
            requires
                y2 + 1 <= y1,
                w >= 0,
        ;
    }
}

/// Number of bytes of a `width`-by-`height` bitmap, if a buffer can have that many.
pub fn buffer_len(width: u32, height: u32) -> (len: Option<usize>)
    ensures
        len is Some <==> 4 * (width * height) <= usize::MAX,
        len matches Some(n) ==> n == 4 * (width * height),
{
    assert(0 <= width * height <= 0xffff_ffff * 0xffff_ffff) by (nonlinear_arith)
        requires
            0 <= width <= 0xffff_ffff,
            0 <= height <= 0xffff_ffff,
    ;
    let area: u64 = (width as u64) * (height as u64);
    if area > (usize::MAX as u64) / 4 {
        None
    } else {
        let bytes: u64 = area * 4;
        Some(bytes as usize)
    }
}

/// An RGBA image of fixed size.
pub struct Bitmap {
    pub(crate) width: u32,
    pub(crate) height: u32,
    pub(crate) data: Vec<u8>,
}

impl View for Bitmap {
    type V = Pixels;

    closed spec fn view(&self) -> Pixels {
        Pixels { width: self.width as nat, height: self.height as nat, data: self.data@ }
    }
}

impl Bitmap {
    /// The bitmap has four bytes for each of its pixels. Every bitmap that
    /// this library hands out has.
    pub open spec fn wf(&self) -> bool {
        self@.wf()
    }

    /// A bitmap of the given size with every pixel set to `color`;
    /// `None` when its bytes would not fit in a buffer.
    pub fn filled(width: u32, height: u32, color: Rgba) -> (out: Option<Bitmap>)
        ensures
            out is Some <==> 4 * (width * height) <= usize::MAX,
            out matches Some(b) ==> {
                &&& b.wf()
                &&& b@.width == width
                &&& b@.height == height
                &&& b@.uniform(color)
            },
    {
        let len = match buffer_len(width, height) {
            Some(n) => n,
            None => {
                return None;
            },
        };
        let mut data: Vec<u8> = Vec::with_capacity(len);
        let mut i: usize = 0;
        while i < len
            invariant
                len == 4 * (width * height),
                i <= len,
                i % 4 == 0,
                data@.len() == i,
                forall|k: int|
                    0 <= k && 4 * k < i ==> {
                        &&& #[trigger] data@[4 * k] == color.r
                        &&& data@[4 * k + 1] == color.g
                        &&& data@[4 * k + 2] == color.b
                        &&& data@[4 * k + 3] == color.a
                    },
            decreases len - i,
        {
            let ghost before = data@;
            data.push(color.r);
            data.push(color.g);
            data.push(color.b);
            data.push(color.a);
            proof {
                assert forall|k: int| 0 <= k && 4 * k < i + 4 implies {
                    &&& #[trigger] data@[4 * k] == color.r
                    &&& data@[4 * k + 1] == color.g
                    &&& data@[4 * k + 2] == color.b
                    &&& data@[4 * k + 3] == color.a
                } by {
                    if 4 * k < i {
                        assert(before[4 * k] == color.r);
                        assert(data@[4 * k] == before[4 * k]);
                        assert(data@[4 * k + 1] == before[4 * k + 1]);
                        assert(data@[4 * k + 2] == before[4 * k + 2]);
                        assert(data@[4 * k + 3] == before[4 * k + 3]);
                    } else {
                        assert(4 * k == i);
                    }
                }
            }
            i = i + 4;
        }
        let b = Bitmap { width, height, data };
        proof {
            assert forall|x: int, y: int| b@.contains(x, y) implies #[trigger] b@.at(x, y)
                == color by {
                lemma_index_bounds(x, y, width as int, height as int);
                let k = b@.index(x, y);
                assert(4 * k < len);
                assert(b@.data[4 * k] == color.r);
            }
        }
        Some(b)
    }

    /// Takes `data` as the pixels of a bitmap of the given size; `None` when
    /// its length is not four bytes per pixel.
    pub fn from_raw(width: u32, height: u32, data: Vec<u8>) -> (out: Option<Bitmap>)
        ensures
            out is Some <==> data@.len() == 4 * (width * height),
            out matches Some(b) ==> b.wf() && b@ == (Pixels {
                width: width as nat,
                height: height as nat,
                data: data@,
            }),
    {
        let given = data.len();
        match buffer_len(width, height) {
            Some(n) => {
                if given == n {
                    Some(Bitmap { width, height, data })
                } else {
                    None
                }
            },
            None => None,
        }
    }

    /// A copy of this bitmap.
    pub fn duplicate(&self) -> (copy: Bitmap)
        ensures
            copy@ == self@,
            self.wf() ==> copy.wf(),
    {
        let data = self.data.clone();
        assert(data@ =~= self.data@);
        Bitmap { width: self.width, height: self.height, data }
    }

    /// Number of columns.
    pub fn width(&self) -> (w: u32)
        ensures
            w == self@.width,
    {
        self.width
    }

    /// Number of rows.
    pub fn height(&self) -> (h: u32)
        ensures
            h == self@.height,
    {
        self.height
    }

    /// The bytes of the bitmap, four per pixel, row by row.
    pub fn as_raw(&self) -> (data: &Vec<u8>)
        ensures
            data@ == self@.data,
    {
        &self.data
    }

    /// Gives up the bitmap for its bytes.
    pub fn into_raw(self) -> (data: Vec<u8>)
        ensures
            data@ == self@.data,
    {
        self.data
    }

    /// The pixel at column `x` of row `y`, or `None` outside the bitmap.
    pub fn get_pixel(&self, x: u32, y: u32) -> (p: Option<Rgba>)
        requires
            self.wf(),
        ensures
            p == if self@.contains(x as int, y as int) {
                Some(self@.at(x as int, y as int))
            } else {
                None
            },
    {
        if x >= self.width || y >= self.height {
            return None;
        }
        let len = self.data.len();
        proof {
            lemma_index_bounds(x as int, y as int, self.width as int, self.height as int);
            assert(0 <= y * self.width) by (nonlinear_arith)
                requires
                    0 <= y,
                    0 <= self.width,
            ;
        }
        let i: usize = (y as usize) * (self.width as usize) + (x as usize);
        let o: usize = 4 * i;
        Some(Rgba { r: self.data[o], g: self.data[o + 1], b: self.data[o + 2], a: self.data[o + 3] })
    }

    /// Overwrites the pixel at column `x` of row `y`.
    pub fn set_pixel(&mut self, x: u32, y: u32, color: Rgba)
        requires
            old(self).wf(),
            old(self)@.contains(x as int, y as int),
        ensures
            final(self).wf(),
            final(self)@.same_size(old(self)@),
            forall|px: int, py: int|
                old(self)@.contains(px, py) ==> #[trigger] final(self)@.at(px, py) == (if px == x
                    && py == y {
                    color
                } else {
                    old(self)@.at(px, py)
                }),
    {
        proof {
            lemma_index_bounds(x as int, y as int, self.width as int, self.height as int);
            assert(0 <= y * self.width) by (nonlinear_arith)
                requires
                    0 <= y,
                    0 <= self.width,
            ;
        }
        let len = self.data.len();
        let i: usize = (y as usize) * (self.width as usize) + (x as usize);
        let o: usize = 4 * i;
        let ghost before = self@;
        self.data.set(o, color.r);
        self.data.set(o + 1, color.g);
        self.data.set(o + 2, color.b);
        self.data.set(o + 3, color.a);
        proof {
            assert forall|px: int, py: int| before.contains(px, py) implies #[trigger] self@.at(
                px,
                py,
            ) == (if px == x && py == y {
                color
            } else {
                before.at(px, py)
            }) by {
                if px == x && py == y {
                } else {
                    lemma_index_bounds(px, py, self.width as int, self.height as int);
                    if before.index(px, py) == i {
                        lemma_index_injective(px, py, x as int, y as int, self.width as int);
                    }
                }
            }
        }
    }

    /// Paints the rectangle of the given size whose top-left corner is at
    /// `(x, y)` with `color`, as far as it lies inside the bitmap.
    pub fn fill_rect(&mut self, x: u32, y: u32, w: u32, h: u32, color: Rgba)
        requires
            old(self).wf(),
        ensures
            final(self).wf(),
            final(self)@.same_size(old(self)@),
            forall|px: int, py: int|
                old(self)@.contains(px, py) ==> #[trigger] final(self)@.at(px, py) == (if in_rect(
                    px,
                    py,
                    x as int,
                    y as int,
                    w as int,
                    h as int,
                ) {
                    color
                } else {
                    old(self)@.at(px, py)
                }),
    {
        let x_end: u32 = clip_end(x, w, self.width);
        let y_end: u32 = clip_end(y, h, self.height);
        let ghost before = self@;
        let mut py: u32 = y;
        while py < y_end
            invariant
                self.wf(),
                self@.same_size(before),
                x_end == spec_clip_end(x as int, w as int, before.width as int),
                y_end == spec_clip_end(y as int, h as int, before.height as int),
                y <= py,
                forall|qx: int, qy: int|
                    before.contains(qx, qy) ==> #[trigger] self@.at(qx, qy) == (if in_rect(
                        qx,
                        qy,
                        x as int,
                        y as int,
                        w as int,
                        h as int,
                    ) && qy < py {
                        color
                    } else {
                        before.at(qx, qy)
                    }),
            decreases y_end - py,
        {
            let mut px: u32 = x;
            while px < x_end
                invariant
                    self.wf(),
                    self@.same_size(before),
                    x_end == spec_clip_end(x as int, w as int, before.width as int),
                    y_end == spec_clip_end(y as int, h as int, before.height as int),
                    y <= py < y_end,
                    x <= px,
                    forall|qx: int, qy: int|
                        before.contains(qx, qy) ==> #[trigger] self@.at(qx, qy) == (if in_rect(
                            qx,
                            qy,
                            x as int,
                            y as int,
                            w as int,
                            h as int,
                        ) && (qy < py || (qy == py && qx < px)) {
                            color
                        } else {
                            before.at(qx, qy)
                        }),
                decreases x_end - px,
            {
                self.set_pixel(px, py, color);
                px = px + 1;
            }
            py = py + 1;
        }
    }

    /// Composites `top` over this bitmap with its top-left corner at
    /// `(x, y)`, as far as it lies inside: each covered pixel becomes the
    /// blend of what was there with the pixel of `top` above it.
    pub fn overlay(&mut self, top: &Bitmap, x: u32, y: u32)
        requires
            old(self).wf(),
            top.wf(),
        ensures
            final(self).wf(),
            final(self)@.same_size(old(self)@),
            forall|px: int, py: int|
                old(self)@.contains(px, py) ==> #[trigger] final(self)@.at(px, py)
                    == composite_at(old(self)@, top@, x as int, y as int, px, py),
    {
        let x_end: u32 = clip_end(x, top.width, self.width);
        let y_end: u32 = clip_end(y, top.height, self.height);
        let ghost before = self@;
        let mut py: u32 = y;
        while py < y_end
            invariant
                top.wf(),
                self.wf(),
                self@.same_size(before),
                x_end == spec_clip_end(x as int, top@.width as int, before.width as int),
                y_end == spec_clip_end(y as int, top@.height as int, before.height as int),
                y <= py,
                forall|qx: int, qy: int|
                    before.contains(qx, qy) ==> #[trigger] self@.at(qx, qy) == (if qy < py {
                        composite_at(before, top@, x as int, y as int, qx, qy)
                    } else {
                        before.at(qx, qy)
                    }),
            decreases y_end - py,
        {
            let mut px: u32 = x;
            while px < x_end
                invariant
                    top.wf(),
                    self.wf(),
                    self@.same_size(before),
                    x_end == spec_clip_end(x as int, top@.width as int, before.width as int),
                    y_end == spec_clip_end(y as int, top@.height as int, before.height as int),
                    y <= py < y_end,
                    x <= px,
                    forall|qx: int, qy: int|
                        before.contains(qx, qy) ==> #[trigger] self@.at(qx, qy) == (if qy < py
                            || (qy == py && qx < px) {
                            composite_at(before, top@, x as int, y as int, qx, qy)
                        } else {
                            before.at(qx, qy)
                        }),
                decreases x_end - px,
            {
                let below = self.get_pixel(px, py);
                let above = top.get_pixel(px - x, py - y);
                match (below, above) {
                    (Some(dst), Some(src)) => {
                        let mixed = blend(dst, src);
                        self.set_pixel(px, py, mixed);
                    },
                    _ => {
                        assert(false);
                    },
                }
                px = px + 1;
            }
            py = py + 1;
        }
    }
}

/// `(px, py)` lies in the rectangle of size `w` by `h` whose top-left corner is `(x, y)`.
pub open spec fn in_rect(px: int, py: int, x: int, y: int, w: int, h: int) -> bool {
    x <= px < x + w && y <= py < y + h
}

/// Where a span that starts at `start` and is `len` long ends inside `0..limit`.
pub open spec fn spec_clip_end(start: int, len: int, limit: int) -> int {
    if start + len < limit {
        start + len
    } else {
        limit
    }
}

/// Computes [`spec_clip_end`].
pub fn clip_end(start: u32, len: u32, limit: u32) -> (end: u32)
    ensures
        end == spec_clip_end(start as int, len as int, limit as int),
{
    let far: u64 = start as u64 + len as u64;
    if far < limit as u64 {
        far as u32
    } else {
        limit
    }
}

/// Alpha compositing of one pixel: a transparent source leaves the
/// destination, an opaque one replaces it, any other is mixed in.
pub open spec fn blend_over(dst: Rgba, src: Rgba) -> Rgba {
    if src.a == 0 {
        dst
    } else if src.a == 255 {
        src
    } else {
        blend_mixed(dst, src)
    }
}

/// The pixel at `(px, py)` after `top` was composited over `bottom` at `(x, y)`.
pub open spec fn composite_at(bottom: Pixels, top: Pixels, x: int, y: int, px: int, py: int) -> Rgba {
    if in_rect(px, py, x, y, top.width as int, top.height as int) {
        blend_over(bottom.at(px, py), top.at(px - x, py - y))
    } else {
        bottom.at(px, py)
    }
}

} // verus!
