//! Finished pixels and the byte buffer they are handed over in: three bytes
//! a pixel, red, green and blue, in the pixels' order.

use vstd::prelude::*;

verus! {

/// One finished pixel.
#[derive(Clone, Copy, Debug, PartialEq, Eq)]
pub struct Pixel {
    pub r: u8,
    pub g: u8,
    pub b: u8,
}

/// A pixel's channels in the order they are stored: red, green, blue.
pub open spec fn channel(pixel: Pixel, which: int) -> u8 {
    if which == 0 {
        pixel.r
    } else if which == 1 {
        pixel.g
    } else {
        pixel.b
    }
}

/// The bytes of a row of pixels: three for each, in the pixels' order.
pub open spec fn packed(pixels: Seq<Pixel>) -> Seq<u8> {
    Seq::new(3 * pixels.len(), |i: int| channel(pixels[i / 3], i % 3))
}

/// Lays pixels out as bytes, one byte a channel.
pub fn pack_pixels(pixels: &Vec<Pixel>) -> (bytes: Vec<u8>)
    ensures
        bytes@ == packed(pixels@),
{
    let mut bytes: Vec<u8> = Vec::new();
    let mut i: usize = 0;
    while i < pixels.len()
        invariant
            i <= pixels@.len(),
            bytes@.len() == 3 * i,
            forall|k: int| 0 <= k < bytes@.len() ==> bytes@[k] == channel(pixels@[k / 3], k % 3),
        decreases pixels@.len() - i,
    {
        let pixel = pixels[i];
        bytes.push(pixel.r);
        bytes.push(pixel.g);
        bytes.push(pixel.b);
        i = i + 1;
    }
    assert(bytes@ =~= packed(pixels@));
    bytes
}

/// The pixel of a bin that nothing landed in.
pub open spec fn black() -> Pixel {
    Pixel { r: 0, g: 0, b: 0 }
}

/// In a finished buffer the pixel at place `k` holds the bytes at `3 * k`,
/// `3 * k + 1` and `3 * k + 2`: red, green and blue.
pub proof fn lemma_packed_layout(pixels: Seq<Pixel>, k: int)
    requires
        0 <= k < pixels.len(),
    ensures
        packed(pixels).len() == 3 * pixels.len(),
        packed(pixels)[3 * k] == pixels[k].r,
        packed(pixels)[3 * k + 1] == pixels[k].g,
        packed(pixels)[3 * k + 2] == pixels[k].b,
{
}

} // verus!
