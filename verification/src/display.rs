//! Colors and block geometry of the framebuffer writer.  The pixel writer
//! itself lives with the kernel glue: it works on hardware memory that the
//! library only describes.

use vstd::prelude::*;

verus! {

use vstd::arithmetic::mul::lemma_mul_inequality;

/// Side length in pixels of one drawing block.
pub const BLOCK_SIZE: usize = 8;

/// The pixel layouts of the framebuffers the kernel runs on: three channels
/// in either order, or a single grey byte.
#[derive(Debug, Clone, Copy, PartialEq, Eq, Structural)]
pub enum PixelFormat {
    Rgb,
    Bgr,
    Grey,
}

/// A drawing color: a named palette entry or a packed 0xRRGGBB value.
#[derive(Debug, Clone, Copy, PartialEq, Eq, Structural)]
pub enum Color {
    Black,
    White,
    Grey,
    Red,
    Green,
    Yellow,
    Blue,
    Magenta,
    Cyan,
    LightGreen,
    LightRed,
    LightBlue,
    LightMagenta,
    LightCyan,
    LightYellow,
    DarkGreen,
    DarkRed,
    DarkBlue,
    DarkMagenta,
    DarkCyan,
    DarkYellow,
    RGB32(u32),
}

impl Color {
    /// The red, green and blue channels of this color.
    pub fn rgb(&self) -> (c: (u8, u8, u8))
        ensures
            c == self.rgb_spec(),
    {
        match *self {
            Color::Black => (0, 0, 0),
            Color::Grey => (0x80, 0x80, 0x80),
            Color::Red => (255, 0, 0),
            Color::Green => (0, 255, 0),
            Color::Yellow => (255, 255, 0),
            Color::Blue => (0, 0, 255),
            Color::Magenta => (255, 0, 255),
            Color::Cyan => (0, 255, 255),
            Color::White => (255, 255, 255),
            Color::LightGreen => (0, 128, 0),
            Color::LightRed => (128, 0, 0),
            Color::LightBlue => (0, 0, 128),
            Color::LightMagenta => (128, 0, 128),
            Color::LightCyan => (0, 128, 128),
            Color::LightYellow => (128, 128, 0),
            Color::DarkGreen => (0, 64, 0),
            Color::DarkRed => (64, 0, 0),
            Color::DarkBlue => (0, 0, 64),
            Color::DarkMagenta => (64, 0, 64),
            Color::DarkCyan => (0, 64, 64),
            Color::DarkYellow => (64, 64, 0),
            Color::RGB32(v) => (((v >> 16) & 0xff) as u8, ((v >> 8) & 0xff) as u8, (v & 0xff) as u8),
        }
    }

    /// What `rgb` returns for each palette entry; a packed value is split
    /// into its three bytes.
    pub open spec fn rgb_spec(&self) -> (u8, u8, u8) {
        match *self {
            Color::Black => (0, 0, 0),
            Color::Grey => (0x80, 0x80, 0x80),
            Color::Red => (255, 0, 0),
            Color::Green => (0, 255, 0),
            Color::Yellow => (255, 255, 0),
            Color::Blue => (0, 0, 255),
            Color::Magenta => (255, 0, 255),
            Color::Cyan => (0, 255, 255),
            Color::White => (255, 255, 255),
            Color::LightGreen => (0, 128, 0),
            Color::LightRed => (128, 0, 0),
            Color::LightBlue => (0, 0, 128),
            Color::LightMagenta => (128, 0, 128),
            Color::LightCyan => (0, 128, 128),
            Color::LightYellow => (128, 128, 0),
            Color::DarkGreen => (0, 64, 0),
            Color::DarkRed => (64, 0, 0),
            Color::DarkBlue => (0, 0, 64),
            Color::DarkMagenta => (64, 0, 64),
            Color::DarkCyan => (0, 64, 64),
            Color::DarkYellow => (64, 64, 0),
            Color::RGB32(v) => (
                ((v >> 16) & 0xff) as u8,
                ((v >> 8) & 0xff) as u8,
                (v & 0xff) as u8,
            ),
        }
    }
}

/// The up to four bytes one pixel of a color occupies in a framebuffer of
/// the given format: the channels in the format's order, or the grey byte
/// that stands in for a bright color.
pub open spec fn encode_pixel_spec(color: Color, format: PixelFormat) -> (u8, u8, u8, u8) {
    let (r, g, b) = color.rgb_spec();
    match format {
        PixelFormat::Rgb => (r, g, b, 0),
        PixelFormat::Bgr => (b, g, r, 0),
        PixelFormat::Grey => (
            if r + g + b < 255 {
                0xf
            } else {
                0
            },
            0,
            0,
            0,
        ),
    }
}

/// Encode one pixel of a color for a framebuffer of the given format; the
/// first `bytes_per_pixel` of the result are written to the buffer.
pub fn encode_pixel(color: Color, format: PixelFormat) -> (p: (u8, u8, u8, u8))
    ensures
        p == encode_pixel_spec(color, format),
{
    let (r, g, b) = color.rgb();
    match format {
        PixelFormat::Rgb => (r, g, b, 0),
        PixelFormat::Bgr => (b, g, r, 0),
        PixelFormat::Grey => {
            let grey: u8 = if (r as u32) + (g as u32) + (b as u32) < 255 {
                0xf
            } else {
                0
            };
            (grey, 0, 0, 0)
        },
    }
}

/// Where pixel (x, y) of a framebuffer with the given line stride starts:
/// the pixel's index times its width in bytes.
pub fn pixel_byte_offset(x: usize, y: usize, stride: usize, bytes_per_pixel: usize) -> (o: usize)
    requires
        1 <= bytes_per_pixel,
        (y * stride + x + 1) * bytes_per_pixel <= usize::MAX,
    ensures
        o as int == (y * stride + x) * bytes_per_pixel,
        o + bytes_per_pixel <= usize::MAX,
{
    proof {
        lemma_mul_inequality(1, bytes_per_pixel as int, y * stride + x + 1);
        assert((y * stride + x) * bytes_per_pixel + bytes_per_pixel == (y * stride + x + 1)
            * bytes_per_pixel) by (nonlinear_arith);
        assert(0 <= (y as int * stride as int) * bytes_per_pixel as int <= (y * stride + x)
            * bytes_per_pixel as int) by (nonlinear_arith)
            requires
                1 <= bytes_per_pixel as int,
                0 <= x as int,
                0 <= y as int * stride as int,
        ;
    }
    (y * stride + x) * bytes_per_pixel
}

} // verus!
