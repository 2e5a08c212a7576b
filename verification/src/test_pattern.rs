//! A test picture for whoever shows the renderer's output: red rises from
//! one column to the next, green down each column, and there is no blue.

use vstd::arithmetic::div_mod::{
    lemma_fundamental_div_mod_converse_div, lemma_fundamental_div_mod_converse_mod,
};
use vstd::prelude::*;

verus! {

/// The byte at place `k` of the test picture of the given height. Pixels
/// are three bytes each and come column by column: pixel `p` stands in
/// column `p / height`, at `p % height` from its top. Red is the column
/// and green the place in it, each counted round after 255.
pub open spec fn pattern_byte(k: int, height: int) -> u8
    recommends
        0 <= k,
        0 < height,
{
    let pixel: int = k / 3;
    if k % 3 == 0 {
        ((pixel / height) % 255) as u8
    } else if k % 3 == 1 {
        ((pixel % height) % 255) as u8
    } else {
        0
    }
}

/// The whole test picture.
pub open spec fn pattern(width: nat, height: nat) -> Seq<u8> {
    Seq::new(3 * width * height, |k: int| pattern_byte(k, height as int))
}

/// Builds the test picture, 24 bits a pixel.
pub fn return_image_rg_24bpp(width: u32, height: u32) -> (bytes: Vec<u8>)
    ensures
        bytes@ == pattern(width as nat, height as nat),
{
    let mut bytes: Vec<u8> = Vec::new();
    let mut i: u32 = 0;
    while i < width
        invariant
            i <= width,
            bytes@.len() == 3 * (i * height),
            forall|k: int| 0 <= k < bytes@.len() ==> bytes@[k] == pattern_byte(k, height as int),
        decreases width - i,
    {
        let mut j: u32 = 0;
        while j < height
            invariant
                i < width,
                j <= height,
                bytes@.len() == 3 * (i * height + j),
                forall|k: int|
                    0 <= k < bytes@.len() ==> bytes@[k] == pattern_byte(k, height as int),
            decreases height - j,
        {
            let r: u8 = (i % 255) as u8;
            let g: u8 = (j % 255) as u8;
            proof {
                let pixel: int = i * height + j;
                lemma_fundamental_div_mod_converse_div(pixel, height as int, i as int, j as int);
                lemma_fundamental_div_mod_converse_mod(pixel, height as int, i as int, j as int);
            }
            bytes.push(r);
            bytes.push(g);
            bytes.push(0);
            j = j + 1;
        }
        assert(i * height + height == (i + 1) * height) by (nonlinear_arith);
        i = i + 1;
    }
    assert(3 * (width * height) == 3 * width * height) by (nonlinear_arith);
    assert(bytes@ =~= pattern(width as nat, height as nat));
    bytes
}

} // verus!
