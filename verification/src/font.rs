//! Font choices, the font data they stand for, and the width estimate
//! that layout uses.

use vstd::prelude::*;
use crate::raster::{font_height, font_height_units, glyph_advance_units, glyph_advances, is_font_units};

verus! {

/// The fonts a text layer can name.
#[derive(Clone, Copy, Debug)]
pub enum Font {
    DejaVuSans,
    UbuntuRegular,
    UbuntuBold,
    RobotoRegular,
    RobotoBold,
    /// A font of the caller's choice, named by where its file lies.
    Custom(&'static str),
}

/// A font choice as a plain value.
pub enum FontKey {
    DejaVuSans,
    UbuntuRegular,
    UbuntuBold,
    RobotoRegular,
    RobotoBold,
    Custom(Seq<char>),
}

impl View for Font {
    type V = FontKey;

    open spec fn view(&self) -> FontKey {
        match *self {
            Font::DejaVuSans => FontKey::DejaVuSans,
            Font::UbuntuRegular => FontKey::UbuntuRegular,
            Font::UbuntuBold => FontKey::UbuntuBold,
            Font::RobotoRegular => FontKey::RobotoRegular,
            Font::RobotoBold => FontKey::RobotoBold,
            Font::Custom(path) => FontKey::Custom(path@),
        }
    }
}

/// Where the file of a font lies: below the directory of the bundled
/// fonts, or for a custom font at the path it names.
pub open spec fn font_file(font: Font) -> Seq<char> {
    match font {
        Font::DejaVuSans => "DejaVuSans.ttf"@,
        Font::UbuntuRegular => "ubuntu/Ubuntu-Regular.ttf"@,
        Font::UbuntuBold => "ubuntu/Ubuntu-Bold.ttf"@,
        Font::RobotoRegular => "roboto/Roboto-Regular.ttf"@,
        Font::RobotoBold => "roboto/Roboto-Bold.ttf"@,
        Font::Custom(path) => path@,
    }
}

impl Font {
    /// Whether the font comes with the library, as opposed to a custom one.
    pub fn is_bundled(&self) -> (yes: bool)
        ensures
            yes == !(*self is Custom),
    {
        match self {
            Font::Custom(_) => false,
            _ => true,
        }
    }

    /// The file of the font: a path below the directory of the bundled
    /// fonts, or the path that a custom font names.
    pub fn file(&self) -> (path: &'static str)
        ensures
            path@ == font_file(*self),
    {
        match *self {
            Font::DejaVuSans => "DejaVuSans.ttf",
            Font::UbuntuRegular => "ubuntu/Ubuntu-Regular.ttf",
            Font::UbuntuBold => "ubuntu/Ubuntu-Bold.ttf",
            Font::RobotoRegular => "roboto/Roboto-Regular.ttf",
            Font::RobotoBold => "roboto/Roboto-Bold.ttf",
            Font::Custom(path) => path,
        }
    }

    /// Whether two choices name the same font.
    pub fn same(&self, other: &Font) -> (eq: bool)
        ensures
            eq == (self@ == other@),
    {
        match (*self, *other) {
            (Font::DejaVuSans, Font::DejaVuSans) => true,
            (Font::UbuntuRegular, Font::UbuntuRegular) => true,
            (Font::UbuntuBold, Font::UbuntuBold) => true,
            (Font::RobotoRegular, Font::RobotoRegular) => true,
            (Font::RobotoBold, Font::RobotoBold) => true,
            (Font::Custom(a), Font::Custom(b)) => {
                let left = String::from_str(a);
                let right = String::from_str(b);
                left == right
            },
            _ => false,
        }
    }
}

/// The data of one font.
pub struct FontEntry {
    pub font: Font,
    pub data: Vec<u8>,
}

/// The font data that was registered for a choice: the latest wins.
pub open spec fn registered(entries: Seq<FontEntry>, key: FontKey) -> Option<Seq<u8>>
    decreases entries.len(),
{
    if entries.len() == 0 {
        None
    } else if entries.last().font@ == key {
        Some(entries.last().data@)
    } else {
        registered(entries.drop_last(), key)
    }
}

/// The font files that text layers draw from, by font choice.
pub struct FontSet {
    entries: Vec<FontEntry>,
}

impl FontSet {
    /// The data held for a font choice, if any.
    pub closed spec fn data(&self, key: FontKey) -> Option<Seq<u8>> {
        registered(self.entries@, key)
    }

    /// A set without fonts.
    pub fn new() -> (set: FontSet)
        ensures
            forall|key: FontKey| set.data(key) is None,
    {
        FontSet { entries: Vec::new() }
    }

    /// Registers the bytes of a font file for a choice, in place of any
    /// registered for it before.
    pub fn insert(&mut self, font: Font, data: Vec<u8>)
        ensures
            forall|key: FontKey|
                #[trigger] final(self).data(key) == if key == font@ {
                    Some(data@)
                } else {
                    old(self).data(key)
                },
    {
        let ghost before = self.entries@;
        self.entries.push(FontEntry { font, data });
        proof {
            assert(self.entries@.drop_last() =~= before);
        }
    }

    /// The bytes registered for a font choice.
    pub fn get(&self, font: &Font) -> (found: Option<&Vec<u8>>)
        ensures
            found is Some <==> self.data(font@) is Some,
            found matches Some(bytes) ==> Some(bytes@) == self.data(font@),
    {
        let mut i: usize = self.entries.len();
        proof {
            assert(self.entries@.take(i as int) =~= self.entries@);
        }
        while i > 0
            invariant
                i <= self.entries@.len(),
                registered(self.entries@, font@) == registered(
                    self.entries@.take(i as int),
                    font@,
                ),
            decreases i,
        {
            let entry = &self.entries[i - 1];
            proof {
                let head = self.entries@.take(i as int);
                assert(head.last() == self.entries@[i - 1]);
                assert(head.drop_last() =~= self.entries@.take(i - 1));
            }
            if entry.font.same(font) {
                return Some(&entry.data);
            }
            i = i - 1;
        }
        None
    }
}

/// Sum of the advances, in font units, that a font gives for the
/// characters of a text.
pub open spec fn advance_sum(font: Seq<u8>, text: Seq<char>) -> int
    decreases text.len(),
{
    if text.len() == 0 {
        0
    } else {
        advance_sum(font, text.drop_last()) + glyph_advance_units(font, text.last())
    }
}

/// Pixels that `units` font units take at `size` pixels per `height`
/// units, rounded up and capped at the largest 32-bit number; 0 for a font
/// without height.
pub open spec fn scaled_width(units: int, size: int, height: int) -> int {
    if height <= 0 {
        0
    } else {
        let px = (size * units + height - 1) / height;
        if px > u32::MAX {
            u32::MAX as int
        } else {
            px
        }
    }
}

/// The estimated width in pixels of a text at a size, for the bytes of a
/// font file: the sum of the advances of its characters, scaled and rounded
/// up. `None` where the bytes are not a font.
pub open spec fn text_width(font: Seq<u8>, text: Seq<char>, size: int) -> Option<int> {
    match font_height_units(font) {
        Some(height) => Some(scaled_width(advance_sum(font, text), size, height)),
        None => None,
    }
}

/// Computes [`scaled_width`].
pub fn scale_units(units: u128, size: u32, height: i32) -> (px: u32)
    ensures
        px == scaled_width(units as int, size as int, height as int),
{
    if height <= 0 {
        return 0;
    }
    if size == 0 {
        assert(size * units == 0) by (nonlinear_arith)
            requires
                size == 0,
        ;
        proof {
            vstd::arithmetic::div_mod::lemma_basic_div(height as int - 1, height as int);
        }
        return 0;
    }
    if units > 0xffff_ffff_ffff_ffff_ffff {
        proof {
            let a = size * units + height - 1;
            let q = a / (height as int);
            vstd::arithmetic::div_mod::lemma_fundamental_div_mod(a, height as int);
            vstd::arithmetic::div_mod::lemma_mod_bound(a, height as int);
            assert(size * units >= units) by (nonlinear_arith)
                requires
                    size >= 1,
                    units >= 0,
            ;
            assert(q > 0xffff_ffff) by (nonlinear_arith)
                requires
                    height * q + a % (height as int) == a,
                    0 <= a % (height as int) < height,
                    a >= 0x1_0000_0000_0000_0000_0000,
                    0 < height <= 0x7fff_ffff,
            ;
        }
        return 0xffff_ffff;
    }
    assert(size * units <= 0xffff_ffff * 0xffff_ffff_ffff_ffff_ffff) by (nonlinear_arith)
        requires
            0 <= size <= 0xffff_ffff,
            0 <= units <= 0xffff_ffff_ffff_ffff_ffff,
    ;
    assert(0 <= size * units) by (nonlinear_arith)
        requires
            0 <= size,
            0 <= units,
    ;
    let scaled: u128 = (size as u128) * units;
    let px: u128 = (scaled + (height as u128) - 1) / (height as u128);
    if px > 0xffff_ffff {
        0xffff_ffff
    } else {
        px as u32
    }
}

/// Sums the advances of a text's characters.
fn sum_units(units: &Vec<u32>, Ghost(font): Ghost<Seq<u8>>, Ghost(text): Ghost<Seq<char>>) -> (sum:
    u128)
    requires
        units@.len() == text.len(),
        forall|i: int|
            0 <= i < units@.len() ==> #[trigger] units@[i] == glyph_advance_units(font, text[i])
                && is_font_units(units@[i] as int),
    ensures
        sum == advance_sum(font, text),
        sum <= 65535 * text.len(),
{
    let mut sum: u128 = 0;
    let mut i: usize = 0;
    while i < units.len()
        invariant
            i <= units@.len(),
            units@.len() == text.len(),
            forall|k: int|
                0 <= k < units@.len() ==> #[trigger] units@[k] == glyph_advance_units(
                    font,
                    text[k],
                ) && is_font_units(units@[k] as int),
            sum == advance_sum(font, text.take(i as int)),
            sum <= 65535 * i,
        decreases units@.len() - i,
    {
        proof {
            let head = text.take(i + 1);
            assert(head.drop_last() =~= text.take(i as int));
            assert(head.last() == text[i as int]);
            assert(units@[i as int] == glyph_advance_units(font, text[i as int]));
        }
        sum = sum + units[i] as u128;
        i = i + 1;
    }
    proof {
        assert(text.take(text.len() as int) =~= text);
    }
    sum
}

/// Estimates how wide a text is at a size in pixels, from the bytes of a
/// font file; `None` where they are not a font. The estimate knows no
/// kerning and no ligatures.
pub fn assume_text_width(text: &str, font_size: u32, font: &[u8]) -> (width: Option<u32>)
    ensures
        width is Some <==> text_width(font@, text@, font_size as int) is Some,
        width matches Some(w) ==> Some(w as int) == text_width(font@, text@, font_size as int),
{
    let height = match font_height(font) {
        Some(h) => h,
        None => {
            return None;
        },
    };
    match glyph_advances(font, text) {
        Some(units) => {
            let count = units.len();
            let sum = sum_units(&units, Ghost(font@), Ghost(text@));
            assert(sum <= 65535 * 0xffff_ffff_ffff_ffff) by (nonlinear_arith)
                requires
                    sum <= 65535 * count,
                    count <= 0xffff_ffff_ffff_ffff,
            ;
            Some(scale_units(sum, font_size, height))
        },
        None => None,
    }
}

} // verus!
