//! Pictures as row-major sequences.

use vstd::prelude::*;

verus! {

/// The row-major sequence of a picture of `width` by `height` whose pixel in column `x` of row
/// `y` is `at(x, y)`.
pub open spec fn raster<T>(width: nat, height: nat, at: spec_fn(int, int) -> T) -> Seq<T> {
    Seq::new(width * height, |i: int| at(i % width as int, i / width as int))
}

/// The bytes of a sequence of four-byte pixels.
pub open spec fn flatten4(pixels: Seq<Seq<u8>>) -> Seq<u8> {
    Seq::new(4 * pixels.len(), |i: int| pixels[i / 4][i % 4])
}

/// Position `y * width + x` lies in row `y` and column `x`.
pub proof fn lemma_position(width: nat, x: int, y: int)
    requires
        0 <= x < width,
        0 <= y,
    ensures
        (y * width + x) / width as int == y,
        (y * width + x) % width as int == x,
        0 <= y * width + x,
{
    vstd::arithmetic::div_mod::lemma_fundamental_div_mod_converse(y * width + x, width as int, y, x);
    assert(0 <= y * width) by (nonlinear_arith)
        requires
            0 <= y,
    ;
}

/// A pixel inside the picture has its position inside the sequence.
pub proof fn lemma_position_bound(width: nat, height: nat, x: int, y: int)
    requires
        0 <= x < width,
        0 <= y < height,
    ensures
        0 <= y * width + x < width * height,
        y * width + width <= width * height,
{
    assert(0 <= y * width + x < width * height && y * width + width <= width * height)
        by (nonlinear_arith)
        requires
            0 <= x < width,
            0 <= y < height,
    ;
}

/// Appending the pixels of a row one by one keeps a picture row-major: the pixel in column `x`
/// of row `y` comes behind `y * width + x` others.
pub proof fn lemma_raster_push<T>(
    width: nat,
    height: nat,
    at: spec_fn(int, int) -> T,
    x: int,
    y: int,
)
    requires
        0 <= x < width,
        0 <= y < height,
    ensures
        y * width + x < raster(width, height, at).len(),
        raster(width, height, at)[y * width + x] == at(x, y),
{
    lemma_position(width, x, y);
    lemma_position_bound(width, height, x, y);
}

/// The row after row `y` starts `width` pixels later.
pub proof fn lemma_next_row(width: nat, y: int)
    ensures
        (y + 1) * width == y * width + width,
{
    assert((y + 1) * width == y * width + width) by (nonlinear_arith);
}

} // verus!
