//! Colours drawn to a surface buffer, and their packed pixel words.

use vstd::prelude::*;

verus! {

/// Colour of one pixel, including the alpha channel.
#[derive(Clone, Copy, Debug, PartialEq, Eq, Hash, Structural)]
pub struct Color {
    pub red: u8,
    pub green: u8,
    pub blue: u8,
    pub alpha: u8,
}

impl Color {
    /// The fully opaque colour with the given channels.
    pub open spec fn solid(red: u8, green: u8, blue: u8) -> Color {
        Color { red, green, blue, alpha: 255 }
    }

    /// The pixel word of this colour: red is the least significant byte,
    /// followed by green, blue and alpha. Stored little-endian, the word's
    /// bytes are red, green, blue, alpha in memory order.
    pub open spec fn packed(self) -> u32 {
        (self.red as int + 0x100 * self.green as int + 0x1_0000 * self.blue as int + 0x100_0000
            * self.alpha as int) as u32
    }

    /// The bytes of this colour's pixel in memory order.
    pub open spec fn bytes(self) -> Seq<u8> {
        seq![self.red, self.green, self.blue, self.alpha]
    }

    /// The opaque colour whose red, green and blue are the three low bytes of
    /// `word`; the word's high byte is not read.
    pub open spec fn unpacked(word: u32) -> Color {
        Color::solid(
            (word as int % 0x100) as u8,
            (word as int / 0x100 % 0x100) as u8,
            (word as int / 0x1_0000 % 0x100) as u8,
        )
    }

    /// Makes a new solid color, with no transparency.
    pub fn solid_color(red: u8, green: u8, blue: u8) -> (color: Self)
        ensures
            color == Color::solid(red, green, blue),
    {
        Color { red, green, blue, alpha: 255 }
    }

    /// Gets the values of the channels, in this order:
    /// (red, green, blue, alpha).
    pub fn to_u8s(self) -> (channels: (u8, u8, u8, u8))
        ensures
            channels == (self.red, self.green, self.blue, self.alpha),
    {
        (self.red, self.green, self.blue, self.alpha)
    }

    /// Same as [`Color::solid_color`].
    pub fn from_u8s(red: u8, green: u8, blue: u8) -> (color: Self)
        ensures
            color == Color::solid(red, green, blue),
    {
        Color::solid_color(red, green, blue)
    }

    /// The colour as one pixel word, see [`Color::packed`].
    pub fn to_u32(self) -> (word: u32)
        ensures
            word == self.packed(),
    {
        let r: u32 = self.red as u32;
        let g: u32 = self.green as u32;
        let b: u32 = self.blue as u32;
        let a: u32 = self.alpha as u32;
        assert(r | (g << 8) | (b << 16) | (a << 24) == r + 0x100 * g + 0x1_0000 * b + 0x100_0000 * a)
            by (bit_vector)
            requires
                r < 0x100,
                g < 0x100,
                b < 0x100,
                a < 0x100,
        ;
        r | (g << 8) | (b << 16) | (a << 24)
    }
}

impl From<u32> for Color {
    /// Reads a pixel word back into an opaque colour, see [`Color::unpacked`].
    fn from(val: u32) -> (color: Color) {
        assert((val & 0xff0000) >> 16 == val / 0x1_0000 % 0x100) by (bit_vector);
        assert((val & 0x00ff00) >> 8 == val / 0x100 % 0x100) by (bit_vector);
        assert(val & 0x0000ff == val % 0x100) by (bit_vector);
        let blue = ((val & 0xff0000) >> 16) as u8;
        let green = ((val & 0x00ff00) >> 8) as u8;
        let red = (val & 0x0000ff) as u8;
        Color::solid_color(red, green, blue)
    }
}

impl vstd::std_specs::convert::FromSpecImpl<u32> for Color {
    open spec fn obeys_from_spec() -> bool {
        true
    }

    open spec fn from_spec(val: u32) -> Color {
        Color::unpacked(val)
    }
}

/// Packing an opaque colour and reading the word back gives the same colour.
pub proof fn lemma_pack_round_trip(red: u8, green: u8, blue: u8)
    ensures
        Color::unpacked(Color::solid(red, green, blue).packed()) == Color::solid(red, green, blue),
{
    let r = red as u32;
    let g = green as u32;
    let b = blue as u32;
    let word = (r + 0x100 * g + 0x1_0000 * b + 0xff00_0000) as u32;
    assert(word % 0x100 == r && word / 0x100 % 0x100 == g && word / 0x1_0000 % 0x100 == b)
        by (bit_vector)
        requires
            r < 0x100,
            g < 0x100,
            b < 0x100,
            word == (r + 0x100 * g + 0x1_0000 * b + 0xff00_0000) as u32,
    ;
    assert(Color::solid(red, green, blue).packed() == word);
}

} // verus!
