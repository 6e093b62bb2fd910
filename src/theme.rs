//! Colours and the two base16 themes used to highlight Lua source.

use vstd::prelude::*;

verus! {

/// A 24-bit colour, `0xRRGGBB`.
#[derive(Clone, Copy, Debug)]
pub struct Color(u32);

impl Color {
    #[verifier::type_invariant]
    spec fn inv(self) -> bool {
        self.0 < 0x1000000
    }

    pub closed spec fn rgb(self) -> u32 {
        self.0
    }

    /// The red channel scaled to 16 bits.
    pub fn red(&self) -> (r: u16)
        ensures
            r == (self.rgb() / 0x10000 % 0x100) * 0x100,
    {
        let x = self.0;
        assert((x >> 16u32) <= 0xffff) by (bit_vector);
        assert(((x >> 16u32) * 256u32) as u16 == (x / 0x10000 % 0x100) * 0x100) by (bit_vector);
        let v: u32 = (self.0 >> 16) * 256;
        #[verifier::truncate] (v as u16)
    }

    /// The green channel scaled to 16 bits.
    pub fn green(&self) -> (r: u16)
        ensures
            r == (self.rgb() / 0x100 % 0x100) * 0x100,
    {
        let x = self.0;
        assert((x >> 8u32) <= 0xffffff) by (bit_vector);
        assert(((x >> 8u32) * 256u32) as u16 == (x / 0x100 % 0x100) * 0x100) by (bit_vector);
        let v: u32 = (self.0 >> 8) * 256;
        #[verifier::truncate] (v as u16)
    }

    /// The blue channel scaled to 16 bits.
    pub fn blue(&self) -> (r: u16)
        ensures
            r == (self.rgb() % 0x100) * 0x100,
    {
        proof {
            use_type_invariant(self);
        }
        let x = self.0;
        assert(x < 0x1000000 ==> ((x * 256u32) as u16) == (x % 0x100) * 0x100) by (bit_vector);
        let v: u32 = self.0 * 256;
        #[verifier::truncate] (v as u16)
    }
}

/// How a kind of token is drawn.
#[derive(Clone, Copy)]
pub struct Style {
    pub color: Color,
    pub bold: bool,
}

impl Style {
    pub fn color(color: Color) -> (r: Style)
        ensures
            r.color == color,
            !r.bold,
    {
        Style { color, bold: false }
    }

    pub fn bold(self) -> (r: Style)
        ensures
            r.color == self.color,
            r.bold,
    {
        let mut s = self;
        s.bold = true;
        s
    }
}

/// A base16 palette (see the base16 theme scheme by Chris Kempson).
#[derive(Clone)]
pub struct Theme {
    pub base00: Color,
    pub base01: Color,
    pub base02: Color,
    pub base03: Color,
    pub base04: Color,
    pub base05: Color,
    pub base06: Color,
    pub base07: Color,
    pub base08: Color,
    pub base09: Color,
    pub base0a: Color,
    pub base0b: Color,
    pub base0c: Color,
    pub base0d: Color,
    pub base0e: Color,
    pub base0f: Color,
}

impl Theme {
    /// The "One Light" base16 scheme.
    pub fn one_light() -> (r: Theme)
        ensures
            r.base00.rgb() == 0xfafafa,
            r.base01.rgb() == 0xf0f0f1,
            r.base02.rgb() == 0xe5e5e6,
            r.base03.rgb() == 0xa0a1a7,
            r.base04.rgb() == 0x696c77,
            r.base05.rgb() == 0x383a42,
            r.base06.rgb() == 0x202227,
            r.base07.rgb() == 0x090a0b,
            r.base08.rgb() == 0xca1243,
            r.base09.rgb() == 0xd75f00,
            r.base0a.rgb() == 0xc18401,
            r.base0b.rgb() == 0x50a14f,
            r.base0c.rgb() == 0x0184bc,
            r.base0d.rgb() == 0x4078f2,
            r.base0e.rgb() == 0xa626a4,
            r.base0f.rgb() == 0x986801,
    {
        Theme {
            base00: Color(0xfafafa),
            base01: Color(0xf0f0f1),
            base02: Color(0xe5e5e6),
            base03: Color(0xa0a1a7),
            base04: Color(0x696c77),
            base05: Color(0x383a42),
            base06: Color(0x202227),
            base07: Color(0x090a0b),
            base08: Color(0xca1243),
            base09: Color(0xd75f00),
            base0a: Color(0xc18401),
            base0b: Color(0x50a14f),
            base0c: Color(0x0184bc),
            base0d: Color(0x4078f2),
            base0e: Color(0xa626a4),
            base0f: Color(0x986801),
        }
    }

    /// The "One Dark" base16 scheme.
    pub fn one_dark() -> (r: Theme)
        ensures
            r.base00.rgb() == 0x282c34,
            r.base01.rgb() == 0x353b45,
            r.base02.rgb() == 0x3e4451,
            r.base03.rgb() == 0x545862,
            r.base04.rgb() == 0x565c64,
            r.base05.rgb() == 0xabb2bf,
            r.base06.rgb() == 0xb6bdca,
            r.base07.rgb() == 0xc8ccd4,
            r.base08.rgb() == 0xe06c75,
            r.base09.rgb() == 0xd19a66,
            r.base0a.rgb() == 0xe5c07b,
            r.base0b.rgb() == 0x98c379,
            r.base0c.rgb() == 0x56b6c2,
            r.base0d.rgb() == 0x61afef,
            r.base0e.rgb() == 0xc678dd,
            r.base0f.rgb() == 0xbe5046,
    {
        Theme {
            base00: Color(0x282c34),
            base01: Color(0x353b45),
            base02: Color(0x3e4451),
            base03: Color(0x545862),
            base04: Color(0x565c64),
            base05: Color(0xabb2bf),
            base06: Color(0xb6bdca),
            base07: Color(0xc8ccd4),
            base08: Color(0xe06c75),
            base09: Color(0xd19a66),
            base0a: Color(0xe5c07b),
            base0b: Color(0x98c379),
            base0c: Color(0x56b6c2),
            base0d: Color(0x61afef),
            base0e: Color(0xc678dd),
            base0f: Color(0xbe5046),
        }
    }
}

} // verus!
