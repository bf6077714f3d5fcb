use crate::scalar::{trunc_div, Scalar, ONE};
use crate::text::{decimal, push_decimal};
use crate::vec3::{triple, Triple, Vec3};
use vstd::prelude::*;

verus! {

/// A `Vec3` read as a position.
pub type Point3 = Vec3;

/// A `Vec3` read as red, green and blue, each meant to lie between zero and one.
pub type Color = Vec3;

/// A colour component scaled by 255.99 and rounded toward zero.
pub open spec fn channel(c: int) -> int {
    trunc_div(c * 25_599, 100_000_000)
}

/// The byte that a colour component is stored as: `channel`, held to 0..=255.
pub open spec fn channel_byte(c: int) -> u8 {
    if channel(c) < 0 {
        0u8
    } else if channel(c) > 255 {
        255u8
    } else {
        channel(c) as u8
    }
}

/// The number that a colour component is written as: `channel`, held to the
/// range of a 32-bit integer.
pub open spec fn channel_number(c: int) -> int {
    if channel(c) < i32::MIN {
        i32::MIN as int
    } else if channel(c) > i32::MAX {
        i32::MAX as int
    } else {
        channel(c)
    }
}

/// The four bytes of a pixel: red, green, blue and an opaque alpha.
pub open spec fn color_bytes(c: Triple) -> Seq<u8> {
    seq![channel_byte(c.x), channel_byte(c.y), channel_byte(c.z), 255u8]
}

/// The text of a pixel: the three numbers, each followed by one space.
pub open spec fn color_line(c: Triple) -> Seq<char> {
    decimal(channel_number(c.x)) + seq![' '] + decimal(channel_number(c.y)) + seq![' ']
        + decimal(channel_number(c.z)) + seq![' ']
}

fn quantize(c: Scalar) -> (q: i128)
    ensures
        q == channel(c as int),
{
    (c as i128) * 25_599 / 100_000_000
}

fn quantize_byte(c: Scalar) -> (b: u8)
    ensures
        b == channel_byte(c as int),
{
    let q: i128 = quantize(c);
    if q < 0 {
        0
    } else if q > 255 {
        255
    } else {
        q as u8
    }
}

fn quantize_number(c: Scalar) -> (n: i32)
    ensures
        n == channel_number(c as int),
{
    let q: i128 = quantize(c);
    if q < i32::MIN as i128 {
        i32::MIN
    } else if q > i32::MAX as i128 {
        i32::MAX
    } else {
        q as i32
    }
}

impl Point3 {
    /// The origin.
    pub fn zeroed() -> (p: Point3)
        ensures
            p@ == triple(0, 0, 0),
    {
        Point3 { x: 0, y: 0, z: 0 }
    }
}

impl Color {
    /// The colour as a line of text: three decimal numbers, each followed by
    /// a space.
    pub fn write_color(&self) -> (line: String)
        ensures
            line@ == color_line(self@),
    {
        let mut line = String::new();
        push_decimal(&mut line, quantize_number(self.x));
        line.append(" ");
        push_decimal(&mut line, quantize_number(self.y));
        line.append(" ");
        push_decimal(&mut line, quantize_number(self.z));
        line.append(" ");
        proof {
            reveal_strlit(" ");
            assert(line@ =~= color_line(self@));
        }
        line
    }

    /// The colour as the four bytes of a pixel.
    pub fn as_u8_buffer(&self) -> (bytes: [u8; 4])
        ensures
            bytes@ == color_bytes(self@),
    {
        let bytes: [u8; 4] = [
            quantize_byte(self.x),
            quantize_byte(self.y),
            quantize_byte(self.z),
            0xFF,
        ];
        assert(bytes@ =~= color_bytes(self@));
        bytes
    }

    pub fn red() -> (c: Color)
        ensures
            c@ == triple(ONE as int, 0, 0),
    {
        Color { x: ONE, y: 0, z: 0 }
    }

    pub fn white() -> (c: Color)
        ensures
            c@ == triple(ONE as int, ONE as int, ONE as int),
    {
        Color { x: ONE, y: ONE, z: ONE }
    }

    pub fn black() -> (c: Color)
        ensures
            c@ == triple(0, 0, 0),
    {
        Color { x: 0, y: 0, z: 0 }
    }
}

} // verus!
