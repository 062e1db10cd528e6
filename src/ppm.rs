//! Encoding of images in the plain-text colour-table format: a header
//! `P3`, a line `<width> <height>`, a line `255`, then one line
//! `<r> <g> <b>` per pixel.

use vstd::prelude::*;

verus! {

/// ASCII code of the digit `0`.
pub const DIGIT_ZERO: u8 = 48;

/// ASCII code of `3`.
pub const DIGIT_THREE: u8 = 51;

/// ASCII code of `P`.
pub const LETTER_P: u8 = 80;

/// ASCII code of a space.
pub const SPACE: u8 = 32;

/// ASCII code of a line feed.
pub const NEWLINE: u8 = 10;

/// The decimal representation of `n`, most significant digit first, without
/// leading zeros (`0` is the single digit `0`).
pub open spec fn decimal(n: nat) -> Seq<u8>
    decreases n,
{
    if n < 10 {
        seq![(DIGIT_ZERO + n) as u8]
    } else {
        decimal(n / 10).push((DIGIT_ZERO + n % 10) as u8)
    }
}

/// Appends the decimal representation of `n` to `out`.
fn push_decimal(out: &mut Vec<u8>, n: u64)
    ensures
        final(out)@ == old(out)@ + decimal(n as nat),
    decreases n,
{
    let last = DIGIT_ZERO + (n % 10) as u8;
    if n >= 10 {
        push_decimal(out, n / 10);
        out.push(last);
        assert(final(out)@ =~= old(out)@ + decimal(n as nat));
    } else {
        out.push(last);
        assert(final(out)@ =~= old(out)@ + decimal(n as nat));
    }
}

/// A pixel after quantization: one byte per channel, `0..=255`.
#[derive(Clone, Copy, Debug, PartialEq, Eq, Structural)]
pub struct Rgb8 {
    pub r: u8,
    pub g: u8,
    pub b: u8,
}

/// The largest channel value, as written in the header.
pub const MAX_CHANNEL: u64 = 255;

/// `P3`, newline, `<width> <height>`, newline, `255`, newline.
pub open spec fn header_bytes(width: nat, height: nat) -> Seq<u8> {
    seq![LETTER_P, DIGIT_THREE, NEWLINE] + decimal(width) + seq![SPACE] + decimal(height) + seq![NEWLINE]
        + decimal(MAX_CHANNEL as nat) + seq![NEWLINE]
}

/// `<r> <g> <b>`, newline.
pub open spec fn color_line(c: Rgb8) -> Seq<u8> {
    decimal(c.r as nat) + seq![SPACE] + decimal(c.g as nat) + seq![SPACE] + decimal(c.b as nat)
        + seq![NEWLINE]
}

/// The pixel lines of `pixels`, in order.
pub open spec fn color_lines(pixels: Seq<Rgb8>) -> Seq<u8>
    decreases pixels.len(),
{
    if pixels.len() == 0 {
        Seq::empty()
    } else {
        color_lines(pixels.drop_last()) + color_line(pixels.last())
    }
}

/// A whole image file: the header, then one line per pixel.
pub open spec fn image_bytes(width: nat, height: nat, pixels: Seq<Rgb8>) -> Seq<u8> {
    header_bytes(width, height) + color_lines(pixels)
}

/// Appends the image header for a `width` by `height` raster to `out`.
pub fn write_ppm_header(out: &mut Vec<u8>, width: usize, height: usize)
    ensures
        final(out)@ == old(out)@ + header_bytes(width as nat, height as nat),
{
    out.push(LETTER_P);
    out.push(DIGIT_THREE);
    out.push(NEWLINE);
    push_decimal(out, width as u64);
    out.push(SPACE);
    push_decimal(out, height as u64);
    out.push(NEWLINE);
    push_decimal(out, MAX_CHANNEL);
    out.push(NEWLINE);
    assert(final(out)@ =~= old(out)@ + header_bytes(width as nat, height as nat));
}

/// Appends the line of one pixel to `out`.
pub fn write_ppm_color(out: &mut Vec<u8>, color: Rgb8)
    ensures
        final(out)@ == old(out)@ + color_line(color),
{
    push_decimal(out, color.r as u64);
    out.push(SPACE);
    push_decimal(out, color.g as u64);
    out.push(SPACE);
    push_decimal(out, color.b as u64);
    out.push(NEWLINE);
    assert(final(out)@ =~= old(out)@ + color_line(color));
}

/// The whole image file for a `width` by `height` raster whose pixels are
/// given in output order (top row first, left to right).
///
/// Returns `None` exactly when the number of pixels is not `width * height`.
pub fn encode_ppm(width: usize, height: usize, pixels: &Vec<Rgb8>) -> (r: Option<Vec<u8>>)
    ensures
        r.is_some() <==> pixels@.len() == width * height,
        r matches Some(bytes) ==> bytes@ == image_bytes(width as nat, height as nat, pixels@),
{
    let len = pixels.len();
    let fits = match width.checked_mul(height) {
        Some(n) => n == len,
        None => false,
    };
    if !fits {
        return None;
    }
    let mut out: Vec<u8> = Vec::new();
    write_ppm_header(&mut out, width, height);
    let mut k: usize = 0;
    while k < pixels.len()
        invariant
            k <= pixels@.len(),
            out@ == header_bytes(width as nat, height as nat) + color_lines(pixels@.take(k as int)),
        decreases pixels@.len() - k,
    {
        write_ppm_color(&mut out, pixels[k]);
        proof {
            assert(pixels@.take(k + 1).drop_last() =~= pixels@.take(k as int));
        }
        k = k + 1;
    }
    assert(pixels@.take(k as int) =~= pixels@);
    Some(out)
}

} // verus!
