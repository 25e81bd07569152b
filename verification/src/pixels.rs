//! Eight bit colors, screenshots read back from the GPU, and raw texture
//! data on its way up to it.

use vstd::prelude::*;

verus! {

/// A color with eight bits per channel.
#[derive(Clone, Copy, Debug, PartialEq, Eq, Structural)]
pub struct U8Color {
    pub r: u8,
    pub g: u8,
    pub b: u8,
    pub a: u8,
}

/// The hex digits, lower case.
pub open spec fn hex_digits() -> Seq<char> {
    seq!['0', '1', '2', '3', '4', '5', '6', '7', '8', '9', 'a', 'b', 'c', 'd', 'e', 'f']
}

/// `#` and two lower case hex digits per channel, red, green and blue.
pub open spec fn hex_of(c: U8Color) -> Seq<char> {
    seq![
        '#',
        hex_digits()[c.r as int / 16],
        hex_digits()[c.r as int % 16],
        hex_digits()[c.g as int / 16],
        hex_digits()[c.g as int % 16],
        hex_digits()[c.b as int / 16],
        hex_digits()[c.b as int % 16],
    ]
}

fn hex_digit(n: u8) -> (c: char)
    requires
        n < 16,
    ensures
        c == hex_digits()[n as int],
{
    match n {
        0 => '0',
        1 => '1',
        2 => '2',
        3 => '3',
        4 => '4',
        5 => '5',
        6 => '6',
        7 => '7',
        8 => '8',
        9 => '9',
        10 => 'a',
        11 => 'b',
        12 => 'c',
        13 => 'd',
        14 => 'e',
        _ => 'f',
    }
}

impl U8Color {
    /// An opaque color.
    pub fn const_rgb(r: u8, g: u8, b: u8) -> (c: U8Color)
        ensures
            c == (U8Color { r, g, b, a: 255 }),
    {
        U8Color { r, g, b, a: 255 }
    }

    /// Fully transparent black.
    pub fn clear() -> (c: U8Color)
        ensures
            c == (U8Color { r: 0, g: 0, b: 0, a: 0 }),
    {
        U8Color { r: 0, g: 0, b: 0, a: 0 }
    }

    /// The color as `#rrggbb`.
    pub fn as_hex(&self) -> (s: String)
        ensures
            s@ == hex_of(*self),
    {
        let mut v: Vec<char> = Vec::new();
        v.push('#');
        v.push(hex_digit(self.r / 16));
        v.push(hex_digit(self.r % 16));
        v.push(hex_digit(self.g / 16));
        v.push(hex_digit(self.g % 16));
        v.push(hex_digit(self.b / 16));
        v.push(hex_digit(self.b % 16));
        assert(v@ =~= hex_of(*self));
        string_of(&v)
    }
}

/// `std::string::String::push` on a `String`: it ends in `c` afterwards.
#[verifier::external_body]
fn push_char(s: &mut String, c: char)
    ensures
        final(s)@ == old(s)@.push(c),
{
    s.push(c)
}

/// The chars `v` as a `String`.
pub fn string_of(v: &Vec<char>) -> (s: String)
    ensures
        s@ == v@,
{
    let mut s = String::new();
    let mut i: usize = 0;
    while i < v.len()
        invariant
            i <= v.len(),
            s@ == v@.take(i as int),
        decreases v.len() - i,
    {
        push_char(&mut s, v[i]);
        assert(s@ =~= v@.take(i + 1));
        i = i + 1;
    }
    assert(v@.take(i as int) =~= v@);
    s
}

/// A width and a height in pixels.
#[derive(Clone, Copy, Debug, PartialEq, Eq, Structural)]
pub struct PixelSize {
    pub width: u32,
    pub height: u32,
}

/// The pixels of a frame read back from the GPU, row after row.
#[derive(Debug)]
pub struct Screenshot {
    pub data: Vec<U8Color>,
    pub size: PixelSize,
}

/// The pixel a screenshot shows at `x`, `y`: clear when there is none.
pub open spec fn pixel_at(data: Seq<U8Color>, width: u32, x: int, y: int) -> U8Color {
    let i = x + y * width;
    if 0 <= i < data.len() {
        data[i]
    } else {
        U8Color { r: 0, g: 0, b: 0, a: 0 }
    }
}

/// The bytes of `data` as RGBA with every pixel opaque.
pub open spec fn opaque_rgba(data: Seq<U8Color>) -> Seq<u8> {
    Seq::new(
        4 * data.len(),
        |k: int|
            if k % 4 == 0 {
                data[k / 4].r
            } else if k % 4 == 1 {
                data[k / 4].g
            } else if k % 4 == 2 {
                data[k / 4].b
            } else {
                255u8
            },
    )
}

impl Screenshot {
    pub fn new(data: Vec<U8Color>, size: PixelSize) -> (s: Self)
        ensures
            s.data@ == data@,
            s.size == size,
    {
        Screenshot { data, size }
    }

    /// The pixel at `x`, `y`, clear for a point outside the picture.
    pub fn get_pixel(&self, x: usize, y: usize) -> (c: U8Color)
        requires
            x + y * self.size.width <= usize::MAX,
        ensures
            c == pixel_at(self.data@, self.size.width, x as int, y as int),
    {
        if self.data.len() == 0 {
            return U8Color::clear();
        }
        proof {
            assert(0 <= y * self.size.width) by (nonlinear_arith)
                requires
                    y >= 0,
                    self.size.width >= 0,
            ;
        }
        let i = x + y * (self.size.width as usize);
        if i < self.data.len() {
            self.data[i]
        } else {
            U8Color::clear()
        }
    }

    /// The pixels as RGBA bytes, every one opaque, ready to encode.
    pub fn rgba_bytes(&self) -> (bytes: Vec<u8>)
        requires
            4 * self.data.len() <= usize::MAX,
        ensures
            bytes@ == opaque_rgba(self.data@),
    {
        let mut bytes: Vec<u8> = Vec::new();
        let mut i: usize = 0;
        while i < self.data.len()
            invariant
                i <= self.data.len(),
                bytes@ == opaque_rgba(self.data@.take(i as int)),
            decreases self.data.len() - i,
        {
            let c = self.data[i];
            bytes.push(c.r);
            bytes.push(c.g);
            bytes.push(c.b);
            bytes.push(255);
            assert(bytes@ =~= opaque_rgba(self.data@.take(i + 1)));
            i = i + 1;
        }
        assert(self.data@.take(i as int) =~= self.data@);
        bytes
    }
}

/// Decoded image bytes and their size, before the upload.
pub struct TextureRawData {
    pub data: Vec<u8>,
    pub size: PixelSize,
    pub channels: u8,
}

/// The texel format a texture uploads in.
#[derive(Clone, Copy, Debug, PartialEq, Eq, Structural)]
pub enum TexelFormat {
    R8Unorm,
    Rgba8Unorm,
}

/// The channels and format a texture of `channels` channels uploads
/// with: one channel stays one, three or four become four. Plain Unorm,
/// so sampling returns the encoded bytes unchanged. An image of any other
/// channel count is not one this engine can draw.
pub fn upload_format(channels: u8) -> (r: (u8, TexelFormat))
    requires
        channels == 1 || channels == 3 || channels == 4,
    ensures
        channels == 1 ==> r == (1u8, TexelFormat::R8Unorm),
        (channels == 3 || channels == 4) ==> r == (4u8, TexelFormat::Rgba8Unorm),
{
    if channels == 1 {
        (1, TexelFormat::R8Unorm)
    } else {
        (4, TexelFormat::Rgba8Unorm)
    }
}

/// Bytes per row of a texture level `width` pixels wide.
pub fn bytes_per_row(channels: u8, width: u32) -> (r: u32)
    requires
        channels * width <= u32::MAX,
    ensures
        r == channels * width,
{
    (channels as u32) * width
}

} // verus!
