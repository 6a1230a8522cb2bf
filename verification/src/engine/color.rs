//! Colours and their encoding as lines of a plain-text pixel stream.

use crate::engine::interval::Interval;
use crate::engine::scalar::{Scalar, SCALE};
use crate::engine::vec3::Vec3;
use vstd::prelude::*;

verus! {

/// A colour: red, green and blue in `x`, `y` and `z`, each nominally in `[0, 1]`.
pub type Color = Vec3;

/// The raw value of the largest intensity that is encoded; anything above is
/// clamped to it, so that full intensity maps to 255 and not to 256.
pub const INTENSITY_MAX: i64 = 999_000_000;

/// ASCII code of the digit zero.
pub const DIGIT_ZERO: u8 = 48;

/// ASCII code of the space.
pub const SPACE: u8 = 32;

/// ASCII code of the line feed.
pub const LINE_FEED: u8 = 10;

/// The window of intensities that are encoded as they are: `[0, 0.999]`.
pub open spec fn intensity() -> Interval {
    Interval { min: Scalar { raw: 0 }, max: Scalar { raw: INTENSITY_MAX } }
}

/// The byte that encodes one channel: `floor(256 * clamp(c, 0, 0.999))`.
pub open spec fn channel_byte(c: Scalar) -> int {
    (256 * intensity().clamp_spec(c).raw) / (SCALE as int)
}

/// The decimal digits of `n` in ASCII, most significant first, without leading zeros.
pub open spec fn decimal_digits(n: nat) -> Seq<u8>
    decreases n,
{
    if n < 10 {
        seq![(DIGIT_ZERO + n) as u8]
    } else {
        decimal_digits(n / 10).push((DIGIT_ZERO + n % 10) as u8)
    }
}

/// The line that encodes one pixel: the three channel bytes in decimal, separated
/// by single spaces and closed by a line feed.
pub open spec fn pixel_line(pixel_color: Color) -> Seq<u8> {
    decimal_digits(channel_byte(pixel_color.x) as nat) + seq![SPACE] + decimal_digits(
        channel_byte(pixel_color.y) as nat,
    ) + seq![SPACE] + decimal_digits(channel_byte(pixel_color.z) as nat) + seq![LINE_FEED]
}

/// The lines that encode a run of pixels, in order.
pub open spec fn pixel_lines(colors: Seq<Color>) -> Seq<u8>
    decreases colors.len(),
{
    if colors.len() == 0 {
        Seq::empty()
    } else {
        pixel_lines(colors.drop_last()) + pixel_line(colors.last())
    }
}

/// The header of a stream of `width` by `height` pixels with channel values up to
/// 255: the lines `P3`, `<width> <height>` and `255`.
pub open spec fn ppm_header(width: nat, height: nat) -> Seq<u8> {
    seq![80u8, 51u8, LINE_FEED] + decimal_digits(width) + seq![SPACE] + decimal_digits(height)
        + seq![LINE_FEED, 50u8, 53u8, 53u8, LINE_FEED]
}

/// Encodes one channel as a byte.
pub fn quantize(c: Scalar) -> (b: u8)
    ensures
        b == channel_byte(c),
{
    let window: Interval = Interval::new(Scalar::zero(), Scalar::new(INTENSITY_MAX));
    let clamped: Scalar = window.clamp(c);
    ((256 * clamped.raw) / SCALE) as u8
}

/// Appends the decimal digits of `n` to `writer`.
pub fn write_decimal(writer: &mut Vec<u8>, n: u32)
    ensures
        final(writer)@ == old(writer)@ + decimal_digits(n as nat),
    decreases n,
{
    if n >= 10 {
        write_decimal(writer, n / 10);
    }
    writer.push(DIGIT_ZERO + (n % 10) as u8);
    assert(final(writer)@ =~= old(writer)@ + decimal_digits(n as nat));
}

/// Appends the line that encodes `pixel_color` to `writer`.
pub fn write_color(writer: &mut Vec<u8>, pixel_color: Color)
    ensures
        final(writer)@ == old(writer)@ + pixel_line(pixel_color),
{
    let rbyte: u8 = quantize(pixel_color.x);
    let gbyte: u8 = quantize(pixel_color.y);
    let bbyte: u8 = quantize(pixel_color.z);
    write_decimal(writer, rbyte as u32);
    writer.push(SPACE);
    write_decimal(writer, gbyte as u32);
    writer.push(SPACE);
    write_decimal(writer, bbyte as u32);
    writer.push(LINE_FEED);
    assert(final(writer)@ =~= old(writer)@ + pixel_line(pixel_color));
}

/// Appends the header of a stream of `width` by `height` pixels to `writer`.
pub fn write_header(writer: &mut Vec<u8>, width: u32, height: u32)
    ensures
        final(writer)@ == old(writer)@ + ppm_header(width as nat, height as nat),
{
    writer.push(80u8);
    writer.push(51u8);
    writer.push(LINE_FEED);
    write_decimal(writer, width);
    writer.push(SPACE);
    write_decimal(writer, height);
    writer.push(LINE_FEED);
    writer.push(50u8);
    writer.push(53u8);
    writer.push(53u8);
    writer.push(LINE_FEED);
    assert(final(writer)@ =~= old(writer)@ + ppm_header(width as nat, height as nat));
}

} // verus!
