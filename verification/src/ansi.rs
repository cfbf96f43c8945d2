//! Text in colour for terminals.

use vstd::prelude::*;

verus! {

/// What switches every style off again.
pub const RESET: &'static str = "\x1b[0m";

/// What switches bold on.
pub const BOLD: &'static str = "\x1b[1m";

/// A colour with the styles that go with it.
pub struct StyledColor<'a> {
    pub color: &'a str,
    pub styles: &'a [&'a str],
}

/// The texts of a list, one after the other.
pub open spec fn joined(parts: Seq<&str>) -> Seq<char>
    decreases parts.len(),
{
    if parts.len() == 0 {
        Seq::empty()
    } else {
        joined(parts.drop_last()) + parts.last()@
    }
}

/// A text painted: the styles, the colour, the text, and the reset.
pub open spec fn painted_text(styles: Seq<&str>, color: Seq<char>, text: Seq<char>) -> Seq<char> {
    joined(styles) + color + text + RESET@
}

impl<'a> StyledColor<'a> {
    /// Wraps a text in this colour and its styles.
    pub fn paint(&self, text: &str) -> (out: String)
        ensures
            out@ == painted_text(self.styles@, self.color@, text@),
    {
        let mut out = String::new();
        let mut i: usize = 0;
        proof {
            assert(self.styles@.take(0) =~= Seq::<&str>::empty());
        }
        while i < self.styles.len()
            invariant
                i <= self.styles@.len(),
                out@ == joined(self.styles@.take(i as int)),
            decreases self.styles@.len() - i,
        {
            proof {
                let head = self.styles@.take(i + 1);
                assert(head.drop_last() =~= self.styles@.take(i as int));
                assert(head.last() == self.styles@[i as int]);
            }
            out.append(self.styles[i]);
            i = i + 1;
        }
        proof {
            assert(self.styles@.take(i as int) =~= self.styles@);
        }
        out.append(self.color);
        out.append(text);
        out.append(RESET);
        out
    }
}

/// A colour and style that text can be painted in.
pub struct PublicStyle(pub StyledColor<'static>);

impl PublicStyle {
    /// Wraps a text in the escape sequences of this style.
    pub fn paint(&self, text: &str) -> (out: String)
        ensures
            out@ == painted_text(self.0.styles@, self.0.color@, text@),
    {
        self.0.paint(text)
    }
}

/// The escape sequence of a foreground colour.
pub enum Color {
    Red,
    Blue,
    Yellow,
    Green,
    Black,
}

/// The escape sequence that selects a colour.
pub open spec fn color_code(color: Color) -> Seq<char> {
    match color {
        Color::Red => "\x1b[31m"@,
        Color::Blue => "\x1b[34m"@,
        Color::Yellow => "\x1b[33m"@,
        Color::Green => "\x1b[32m"@,
        Color::Black => "\x1b[37m"@,
    }
}

impl Color {
    /// The escape sequence that selects this colour.
    pub fn code(&self) -> (code: &'static str)
        ensures
            code@ == color_code(*self),
    {
        match self {
            Color::Red => "\x1b[31m",
            Color::Blue => "\x1b[34m",
            Color::Yellow => "\x1b[33m",
            Color::Green => "\x1b[32m",
            Color::Black => "\x1b[37m",
        }
    }

    /// This colour without further styles.
    pub fn normal(&self) -> (style: PublicStyle)
        ensures
            style.0.color@ == color_code(*self),
            style.0.styles@.len() == 0,
    {
        PublicStyle(StyledColor { color: self.code(), styles: &[] })
    }

    /// This colour in bold.
    pub fn bold(&self) -> (style: PublicStyle)
        ensures
            style.0.color@ == color_code(*self),
            style.0.styles@.len() == 1,
            style.0.styles@[0]@ == BOLD@,
    {
        PublicStyle(StyledColor { color: self.code(), styles: &[BOLD] })
    }
}

} // verus!
