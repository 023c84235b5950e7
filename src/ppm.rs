//! Plain-text PPM ("P3") encoding of an image: a three-line header, then one
//! line `R G B` per pixel in row-major order, top row first.
use vstd::prelude::*;
use crate::image::{Image, ImageModel, Rgb8};

verus! {

pub const NEWLINE: u8 = 10;

pub const SPACE: u8 = 32;

/// ASCII decimal digits of `n`, most significant first, without leading zeros.
pub open spec fn decimal(n: nat) -> Seq<u8>
    decreases n,
{
    if n < 10 {
        seq![(48 + n) as u8]
    } else {
        decimal(n / 10) + seq![(48 + n % 10) as u8]
    }
}

/// `P3`, the width and height, and the largest channel value 255, one per line.
pub open spec fn header(width: nat, height: nat) -> Seq<u8> {
    seq![80u8, 51u8, NEWLINE] + decimal(width) + seq![SPACE] + decimal(height) + seq![NEWLINE]
        + decimal(255) + seq![NEWLINE]
}

/// The line of one pixel: its three channels in decimal, space separated.
pub open spec fn pixel_line(c: Rgb8) -> Seq<u8> {
    decimal(c.r as nat) + seq![SPACE] + decimal(c.g as nat) + seq![SPACE] + decimal(c.b as nat)
        + seq![NEWLINE]
}

/// The lines of the given pixels, in their order.
pub open spec fn pixel_lines(pixels: Seq<Rgb8>) -> Seq<u8>
    decreases pixels.len(),
{
    if pixels.len() == 0 {
        Seq::empty()
    } else {
        pixel_lines(pixels.drop_last()) + pixel_line(pixels.last())
    }
}

/// The whole file for an image.
pub open spec fn ppm(img: ImageModel) -> Seq<u8> {
    header(img.width, img.height) + pixel_lines(img.pixels)
}

/// Appends the decimal digits of `n`.
pub fn push_decimal(out: &mut Vec<u8>, n: u32)
    ensures
        final(out)@ == old(out)@ + decimal(n as nat),
    decreases n,
{
    if n >= 10 {
        push_decimal(out, n / 10);
    }
    out.push((48 + n % 10) as u8);
    proof {
        if n >= 10 {
            assert(final(out)@ =~= old(out)@ + decimal(n as nat));
        } else {
            assert(final(out)@ =~= old(out)@ + decimal(n as nat));
        }
    }
}

/// Appends the PPM header of a `width` by `height` image.
pub fn push_header(out: &mut Vec<u8>, width: u32, height: u32)
    ensures
        final(out)@ == old(out)@ + header(width as nat, height as nat),
{
    out.push(80u8);
    out.push(51u8);
    out.push(NEWLINE);
    push_decimal(out, width);
    out.push(SPACE);
    push_decimal(out, height);
    out.push(NEWLINE);
    push_decimal(out, 255);
    out.push(NEWLINE);
    assert(final(out)@ =~= old(out)@ + header(width as nat, height as nat));
}

/// Appends the line of one pixel.
pub fn write_color(out: &mut Vec<u8>, c: Rgb8)
    ensures
        final(out)@ == old(out)@ + pixel_line(c),
{
    push_decimal(out, c.r as u32);
    out.push(SPACE);
    push_decimal(out, c.g as u32);
    out.push(SPACE);
    push_decimal(out, c.b as u32);
    out.push(NEWLINE);
    assert(final(out)@ =~= old(out)@ + pixel_line(c));
}

/// The PPM file of `img`.
pub fn encode(img: &Image) -> (bytes: Vec<u8>)
    requires
        img.wf(),
    ensures
        bytes@ == ppm(img@),
{
    let mut out: Vec<u8> = Vec::new();
    push_header(&mut out, img.width(), img.height());
    let pixels = img.pixels();
    let mut k: usize = 0;
    while k < pixels.len()
        invariant
            k <= pixels@.len(),
            pixels@ == img@.pixels,
            out@ == header(img@.width, img@.height) + pixel_lines(pixels@.take(k as int)),
        decreases pixels@.len() - k,
    {
        write_color(&mut out, pixels[k]);
        proof {
            assert(pixels@.take(k + 1).drop_last() =~= pixels@.take(k as int));
        }
        k += 1;
    }
    assert(pixels@.take(k as int) =~= pixels@);
    out
}

} // verus!
