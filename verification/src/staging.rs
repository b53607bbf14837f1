//! Copying decoded images into tightly packed frames.
//!
//! The decoder hands out images as planes with strides and a crop rectangle. Staging reads the
//! visible region of the planes into a packed NV12 frame, or into packed RGBA.

use vstd::prelude::*;

use crate::raster::{lemma_next_row, lemma_position_bound, lemma_raster_push, raster};

verus! {

/// Luma of pixels that lie outside their plane: black in limited range.
pub const MISSING_LUMA: u8 = 16;

/// Chroma of samples that lie outside their plane: no colour.
pub const NEUTRAL_CHROMA: u8 = 128;

/// Largest width and height of an image.
pub const MAX_IMAGE_SIDE: usize = 0x7fff_ffff;

/// Why an image could not be staged.
#[derive(Clone, Copy, Debug, PartialEq, Eq, Structural)]
pub enum StagingError {
    /// A size or an offset does not fit into the machine's address range.
    SizeOverflow,
    /// The image has no planes.
    NoPlanes,
}

/// The rectangle of an image that holds the picture, as the decoder reports it.
#[derive(Clone, Copy, Debug, PartialEq, Eq, Structural)]
pub struct CropRect {
    pub left: i32,
    pub top: i32,
    pub right: i32,
    pub bottom: i32,
}

/// The part of an image that is staged.
#[derive(Clone, Copy, Debug, PartialEq, Eq, Structural)]
pub struct Region {
    pub left: usize,
    pub top: usize,
    pub width: usize,
    pub height: usize,
}

/// One plane of an image.
#[derive(Clone, Copy, Debug)]
pub struct ImagePlane<'a> {
    pub data: &'a [u8],
    pub row_stride: usize,
    pub pixel_stride: usize,
}

/// Larger of two numbers.
pub open spec fn greater(a: int, b: int) -> int {
    if a < b {
        b
    } else {
        a
    }
}

/// A crop rectangle that is not empty and lies inside the image.
pub open spec fn crop_usable(crop: CropRect, image_width: usize, image_height: usize) -> bool {
    let right = greater(crop.right as int, crop.left as int);
    let bottom = greater(crop.bottom as int, crop.top as int);
    &&& greater(crop.left as int, 0) < right <= image_width
    &&& greater(crop.top as int, 0) < bottom <= image_height
}

/// The region that is staged: the crop rectangle where it is usable, else the whole image.
pub open spec fn staged_region(
    crop: Option<CropRect>,
    image_width: usize,
    image_height: usize,
) -> Region {
    match crop {
        Some(crop) if crop_usable(crop, image_width, image_height) => {
            let left = greater(crop.left as int, 0);
            let top = greater(crop.top as int, 0);
            Region {
                left: left as usize,
                top: top as usize,
                width: (greater(crop.right as int, crop.left as int) - left) as usize,
                height: (greater(crop.bottom as int, crop.top as int) - top) as usize,
            }
        },
        _ => Region { left: 0, top: 0, width: image_width, height: image_height },
    }
}

/// Chooses the region to stage.
pub fn select_region(crop: Option<CropRect>, image_width: usize, image_height: usize) -> (region:
    Region)
    requires
        image_width <= MAX_IMAGE_SIDE,
        image_height <= MAX_IMAGE_SIDE,
    ensures
        region == staged_region(crop, image_width, image_height),
        region.left + region.width <= image_width,
        region.top + region.height <= image_height,
{
    if let Some(crop) = crop {
        let right: i32 = if crop.right < crop.left {
            crop.left
        } else {
            crop.right
        };
        let bottom: i32 = if crop.bottom < crop.top {
            crop.top
        } else {
            crop.bottom
        };
        let left: i32 = if crop.left < 0 {
            0
        } else {
            crop.left
        };
        let top: i32 = if crop.top < 0 {
            0
        } else {
            crop.top
        };
        if left < right && top < bottom && right as usize <= image_width && bottom as usize
            <= image_height {
            return Region {
                left: left as usize,
                top: top as usize,
                width: (right - left) as usize,
                height: (bottom - top) as usize,
            };
        }
    }
    Region { left: 0, top: 0, width: image_width, height: image_height }
}

/// A pair of chroma samples after neutralising: both zero means that the decoder wrote none.
pub open spec fn neutralized(u: u8, v: u8) -> (u8, u8) {
    if u == 0 && v == 0 {
        (NEUTRAL_CHROMA, NEUTRAL_CHROMA)
    } else {
        (u, v)
    }
}

/// Replaces an all-zero pair of chroma samples by no colour.
pub fn neutralize_zero_chroma(u: &mut u8, v: &mut u8)
    ensures
        (*final(u), *final(v)) == neutralized(*old(u), *old(v)),
{
    if *u == 0 && *v == 0 {
        *u = NEUTRAL_CHROMA;
        *v = NEUTRAL_CHROMA;
    }
}

impl<'a> ImagePlane<'a> {
    /// Where the sample in column `x` of row `y` lies.
    pub open spec fn offset(self, x: int, y: int) -> int {
        y * self.row_stride + x * self.pixel_stride
    }

    /// The sample in column `x` of row `y`, or `missing` where the plane ends before it.
    pub open spec fn sample(self, x: int, y: int, missing: u8) -> u8 {
        if self.offset(x, y) < self.data@.len() {
            self.data@[self.offset(x, y)]
        } else {
            missing
        }
    }

    /// Every sample of a region of `width` by `height` at `left`, `top` has an offset in the
    /// address range. The offset of the start of each row counts even where the region has no
    /// columns.
    pub open spec fn addressable(self, left: int, top: int, width: int, height: int) -> bool {
        height > 0 ==> self.offset(left + greater(width, 1) - 1, top + height - 1) <= usize::MAX
    }
}

proof fn lemma_offset_monotone(plane: ImagePlane<'_>, x: int, y: int, x_max: int, y_max: int)
    requires
        0 <= x <= x_max,
        0 <= y <= y_max,
    ensures
        0 <= y * plane.row_stride <= plane.offset(x, y),
        0 <= x * plane.pixel_stride <= plane.offset(x, y) <= plane.offset(x_max, y_max),
{
    let row = plane.row_stride as int;
    let pixel = plane.pixel_stride as int;
    assert(0 <= y * row <= y_max * row) by (nonlinear_arith)
        requires
            0 <= y <= y_max,
            0 <= row,
    ;
    assert(0 <= x * pixel <= x_max * pixel) by (nonlinear_arith)
        requires
            0 <= x <= x_max,
            0 <= pixel,
    ;
}

/// Whether a region of a plane is addressable.
fn region_addressable(
    plane: &ImagePlane<'_>,
    left: usize,
    top: usize,
    width: usize,
    height: usize,
) -> (fits: bool)
    requires
        left + width <= MAX_IMAGE_SIDE,
        top + height <= MAX_IMAGE_SIDE,
    ensures
        fits == plane.addressable(left as int, top as int, width as int, height as int),
{
    if height == 0 {
        return true;
    }
    let columns: usize = if width == 0 {
        1
    } else {
        width
    };
    let last_row: u128 = (top + (height - 1)) as u128;
    let last_column: u128 = left as u128 + (columns - 1) as u128;
    let row: u128 = plane.row_stride as u128;
    let pixel: u128 = plane.pixel_stride as u128;
    proof {
        assert(last_row * row <= 0x8000_0000 * 0xffff_ffff_ffff_ffff) by (nonlinear_arith)
            requires
                last_row <= 0x8000_0000,
                row <= 0xffff_ffff_ffff_ffff,
        ;
        assert(last_column * pixel <= 0x8000_0000 * 0xffff_ffff_ffff_ffff) by (nonlinear_arith)
            requires
                last_column <= 0x8000_0000,
                pixel <= 0xffff_ffff_ffff_ffff,
        ;
    }
    last_row * row + last_column * pixel <= usize::MAX as u128
}

/// Reads one sample of an addressable region.
fn read_sample(plane: &ImagePlane<'_>, x: usize, y: usize, missing: u8) -> (sample: u8)
    requires
        plane.offset(x as int, y as int) <= usize::MAX,
    ensures
        sample == plane.sample(x as int, y as int, missing),
{
    proof {
        lemma_offset_monotone(*plane, x as int, y as int, x as int, y as int);
    }
    let index: usize = y * plane.row_stride + x * plane.pixel_stride;
    if index < plane.data.len() {
        plane.data[index]
    } else {
        missing
    }
}

/// Half of a side, rounded up: the number of chroma samples along it.
pub open spec fn chroma_side(side: int) -> int {
    (side + 1) / 2
}

/// Size in bytes of an NV12 frame.
pub open spec fn nv12_len(width: int, height: int) -> int {
    width * height + 2 * (chroma_side(width) * chroma_side(height))
}

/// The luma plane of the staged frame.
pub open spec fn staged_luma(region: Region, y_plane: ImagePlane<'_>) -> Seq<u8> {
    raster(
        region.width as nat,
        region.height as nat,
        |x: int, y: int| y_plane.sample(region.left + x, region.top + y, MISSING_LUMA),
    )
}

/// The chroma pairs of the staged frame, one for each block of two by two pixels.
pub open spec fn staged_chroma(
    region: Region,
    u_plane: ImagePlane<'_>,
    v_plane: ImagePlane<'_>,
) -> Seq<(u8, u8)> {
    let left = region.left / 2;
    let top = region.top / 2;
    raster(
        chroma_side(region.width as int) as nat,
        chroma_side(region.height as int) as nat,
        |x: int, y: int|
            neutralized(
                u_plane.sample(left + x, top + y, NEUTRAL_CHROMA),
                v_plane.sample(left + x, top + y, NEUTRAL_CHROMA),
            ),
    )
}

/// The bytes of a sequence of pairs.
pub open spec fn flatten2(pairs: Seq<(u8, u8)>) -> Seq<u8> {
    Seq::new(
        2 * pairs.len(),
        |i: int|
            if i % 2 == 0 {
                pairs[i / 2].0
            } else {
                pairs[i / 2].1
            },
    )
}

/// The staged NV12 frame: the luma plane, then the chroma pairs.
pub open spec fn staged_nv12(
    region: Region,
    y_plane: ImagePlane<'_>,
    u_plane: ImagePlane<'_>,
    v_plane: ImagePlane<'_>,
) -> Seq<u8> {
    staged_luma(region, y_plane) + flatten2(staged_chroma(region, u_plane, v_plane))
}

/// Every size and offset that staging the planes computes lies in the address range.
pub open spec fn planes_addressable(
    region: Region,
    y_plane: ImagePlane<'_>,
    u_plane: ImagePlane<'_>,
    v_plane: ImagePlane<'_>,
) -> bool {
    let width = region.width as int;
    let height = region.height as int;
    let chroma_width = chroma_side(width);
    let chroma_height = chroma_side(height);
    let left = (region.left / 2) as int;
    let top = (region.top / 2) as int;
    &&& nv12_len(width, height) <= usize::MAX
    &&& y_plane.addressable(region.left as int, region.top as int, width, height)
    &&& u_plane.addressable(left, top, chroma_width, chroma_height)
    &&& v_plane.addressable(left, top, chroma_width, chroma_height)
}

fn stage_luma(region: &Region, plane: &ImagePlane<'_>, out: &mut Vec<u8>)
    requires
        region.left + region.width <= MAX_IMAGE_SIDE,
        region.top + region.height <= MAX_IMAGE_SIDE,
        plane.addressable(
            region.left as int,
            region.top as int,
            region.width as int,
            region.height as int,
        ),
        old(out)@.len() == 0,
    ensures
        final(out)@ == staged_luma(*region, *plane),
{
    let ghost expected = staged_luma(*region, *plane);
    let ghost at = |x: int, y: int| plane.sample(region.left + x, region.top + y, MISSING_LUMA);
    let mut row: usize = 0;
    while row < region.height
        invariant
            row <= region.height,
            region.left + region.width <= MAX_IMAGE_SIDE,
            region.top + region.height <= MAX_IMAGE_SIDE,
            plane.addressable(
                region.left as int,
                region.top as int,
                region.width as int,
                region.height as int,
            ),
            expected == raster(region.width as nat, region.height as nat, at),
            at == (|x: int, y: int| plane.sample(region.left + x, region.top + y, MISSING_LUMA)),
            out@.len() == row * region.width,
            out@.len() <= expected.len(),
            out@ =~= expected.take(out@.len() as int),
        decreases region.height - row,
    {
        let mut column: usize = 0;
        while column < region.width
            invariant
                row < region.height,
                column <= region.width,
                region.left + region.width <= MAX_IMAGE_SIDE,
                region.top + region.height <= MAX_IMAGE_SIDE,
                plane.addressable(
                    region.left as int,
                    region.top as int,
                    region.width as int,
                    region.height as int,
                ),
                expected == raster(region.width as nat, region.height as nat, at),
                at == (|x: int, y: int|
                    plane.sample(region.left + x, region.top + y, MISSING_LUMA)),
                out@.len() == row * region.width + column,
                out@.len() <= expected.len(),
                out@ =~= expected.take(out@.len() as int),
            decreases region.width - column,
        {
            proof {
                lemma_raster_push(
                    region.width as nat,
                    region.height as nat,
                    at,
                    column as int,
                    row as int,
                );
                lemma_offset_monotone(
                    *plane,
                    region.left + column,
                    region.top + row,
                    region.left + region.width - 1,
                    region.top + region.height - 1,
                );
            }
            let sample: u8 = read_sample(
                plane,
                region.left + column,
                region.top + row,
                MISSING_LUMA,
            );
            out.push(sample);
            column = column + 1;
        }
        proof {
            lemma_next_row(region.width as nat, row as int);
        }
        row = row + 1;
    }
    proof {
        assert(region.height * region.width == region.width * region.height) by (nonlinear_arith);
        assert(expected.take(expected.len() as int) =~= expected);
    }
}

fn stage_chroma(
    region: &Region,
    u_plane: &ImagePlane<'_>,
    v_plane: &ImagePlane<'_>,
    out: &mut Vec<u8>,
)
    requires
        region.left + region.width <= MAX_IMAGE_SIDE,
        region.top + region.height <= MAX_IMAGE_SIDE,
        u_plane.addressable(
            (region.left / 2) as int,
            (region.top / 2) as int,
            chroma_side(region.width as int),
            chroma_side(region.height as int),
        ),
        v_plane.addressable(
            (region.left / 2) as int,
            (region.top / 2) as int,
            chroma_side(region.width as int),
            chroma_side(region.height as int),
        ),
    ensures
        final(out)@ == old(out)@ + flatten2(staged_chroma(*region, *u_plane, *v_plane)),
{
    let ghost before = out@;
    let ghost pairs = staged_chroma(*region, *u_plane, *v_plane);
    let left: usize = region.left / 2;
    let top: usize = region.top / 2;
    let width: usize = (region.width + 1) / 2;
    let height: usize = (region.height + 1) / 2;
    let ghost at = |x: int, y: int|
        neutralized(
            u_plane.sample(left + x, top + y, NEUTRAL_CHROMA),
            v_plane.sample(left + x, top + y, NEUTRAL_CHROMA),
        );
    assert(pairs =~= raster(width as nat, height as nat, at));
    assert(before + flatten2(pairs).take(0) =~= before);
    let mut row: usize = 0;
    let ghost mut done: int = 0;
    while row < height
        invariant
            row <= height,
            left + width <= MAX_IMAGE_SIDE,
            top + height <= MAX_IMAGE_SIDE,
            u_plane.addressable(left as int, top as int, width as int, height as int),
            v_plane.addressable(left as int, top as int, width as int, height as int),
            pairs == raster(width as nat, height as nat, at),
            at == (|x: int, y: int|
                neutralized(
                    u_plane.sample(left + x, top + y, NEUTRAL_CHROMA),
                    v_plane.sample(left + x, top + y, NEUTRAL_CHROMA),
                )),
            done == row * width,
            0 <= done <= pairs.len(),
            out@ =~= before + flatten2(pairs).take(2 * done),
        decreases height - row,
    {
        let mut column: usize = 0;
        while column < width
            invariant
                row < height,
                column <= width,
                left + width <= MAX_IMAGE_SIDE,
                top + height <= MAX_IMAGE_SIDE,
                u_plane.addressable(left as int, top as int, width as int, height as int),
                v_plane.addressable(left as int, top as int, width as int, height as int),
                pairs == raster(width as nat, height as nat, at),
                at == (|x: int, y: int|
                    neutralized(
                        u_plane.sample(left + x, top + y, NEUTRAL_CHROMA),
                        v_plane.sample(left + x, top + y, NEUTRAL_CHROMA),
                    )),
                done == row * width + column,
                0 <= done <= pairs.len(),
                out@ =~= before + flatten2(pairs).take(2 * done),
            decreases width - column,
        {
            proof {
                lemma_raster_push(width as nat, height as nat, at, column as int, row as int);
                lemma_offset_monotone(
                    *u_plane,
                    left + column,
                    top + row,
                    left + width - 1,
                    top + height - 1,
                );
                lemma_offset_monotone(
                    *v_plane,
                    left + column,
                    top + row,
                    left + width - 1,
                    top + height - 1,
                );
            }
            let mut u: u8 = read_sample(u_plane, left + column, top + row, NEUTRAL_CHROMA);
            let mut v: u8 = read_sample(v_plane, left + column, top + row, NEUTRAL_CHROMA);
            neutralize_zero_chroma(&mut u, &mut v);
            out.push(u);
            out.push(v);
            proof {
                let bytes = flatten2(pairs);
                assert(pairs[done] == (u, v));
                assert(bytes[2 * done] == u);
                assert(bytes[2 * done + 1] == v);
                done = done + 1;
            }
            column = column + 1;
        }
        proof {
            lemma_next_row(width as nat, row as int);
        }
        row = row + 1;
    }
    proof {
        assert(height * width == width * height) by (nonlinear_arith);
        assert(flatten2(pairs).take(2 * done) =~= flatten2(pairs));
    }
}

/// Stages three image planes as one NV12 frame.
///
/// Rows of a luma plane without gaps between its pixels are copied as they are and have to lie
/// inside the plane; any other sample outside its plane reads as black or as no colour.
pub fn stage_yuv420_image_as_nv12(
    region: &Region,
    y_plane: &ImagePlane<'_>,
    u_plane: &ImagePlane<'_>,
    v_plane: &ImagePlane<'_>,
) -> (nv12: Result<Vec<u8>, StagingError>)
    requires
        region.left + region.width <= MAX_IMAGE_SIDE,
        region.top + region.height <= MAX_IMAGE_SIDE,
        y_plane.pixel_stride == 1 && region.width > 0 && region.height > 0 ==> y_plane.offset(
            region.left + region.width - 1,
            region.top + region.height - 1,
        ) < y_plane.data@.len(),
    ensures
        match nv12 {
            Ok(bytes) => {
                &&& planes_addressable(*region, *y_plane, *u_plane, *v_plane)
                &&& bytes@ == staged_nv12(*region, *y_plane, *u_plane, *v_plane)
                &&& bytes@.len() == nv12_len(region.width as int, region.height as int)
            },
            Err(error) => {
                &&& error == StagingError::SizeOverflow
                &&& !planes_addressable(*region, *y_plane, *u_plane, *v_plane)
            },
        },
{
    let chroma_width: usize = (region.width + 1) / 2;
    let chroma_height: usize = (region.height + 1) / 2;
    proof {
        assert(region.width * region.height <= 0x7fff_ffff * 0x7fff_ffff) by (nonlinear_arith)
            requires
                region.width <= 0x7fff_ffff,
                region.height <= 0x7fff_ffff,
        ;
        assert(chroma_width * chroma_height <= 0x4000_0000 * 0x4000_0000) by (nonlinear_arith)
            requires
                chroma_width <= 0x4000_0000,
                chroma_height <= 0x4000_0000,
        ;
        assert(0 <= region.width * region.height) by (nonlinear_arith);
        assert(0 <= chroma_width * chroma_height) by (nonlinear_arith);
    }
    let length: u128 = region.width as u128 * region.height as u128 + 2 * (chroma_width as u128
        * chroma_height as u128);
    if length > usize::MAX as u128 {
        return Err(StagingError::SizeOverflow);
    }
    if !region_addressable(y_plane, region.left, region.top, region.width, region.height)
        || !region_addressable(
        u_plane,
        region.left / 2,
        region.top / 2,
        chroma_width,
        chroma_height,
    ) || !region_addressable(
        v_plane,
        region.left / 2,
        region.top / 2,
        chroma_width,
        chroma_height,
    ) {
        return Err(StagingError::SizeOverflow);
    }
    let mut nv12: Vec<u8> = Vec::with_capacity(length as usize);
    stage_luma(region, y_plane, &mut nv12);
    stage_chroma(region, u_plane, v_plane, &mut nv12);
    Ok(nv12)
}

// ---------------------------------------------------------------------------
// Colour conversion
// ---------------------------------------------------------------------------

/// `bytes` is a picture of packed RGBA pixels: pixel `(x, y)` holds the colour that `convert`
/// gives for the sample `at(x, y)`, fully opaque.
pub open spec fn is_converted<F: Fn(u8, u8, u8) -> [u8; 3]>(
    bytes: Seq<u8>,
    width: nat,
    height: nat,
    at: spec_fn(int, int) -> (u8, u8, u8),
    convert: F,
) -> bool {
    let samples = raster(width, height, at);
    &&& bytes.len() == 4 * samples.len()
    &&& forall|i: int|
        0 <= i < samples.len() ==> #[trigger] is_converted_pixel(bytes, i, samples[i], convert)
}

/// The four bytes of pixel `i` hold the converted colour of `sample` and full opacity.
pub open spec fn is_converted_pixel<F: Fn(u8, u8, u8) -> [u8; 3]>(
    bytes: Seq<u8>,
    i: int,
    sample: (u8, u8, u8),
    convert: F,
) -> bool {
    exists|rgb: [u8; 3]| #[trigger]
        call_ensures(convert, sample, rgb) && bytes[4 * i] == rgb@[0] && bytes[4 * i + 1] == rgb@[1]
            && bytes[4 * i + 2] == rgb@[2] && bytes[4 * i + 3] == 255
}

fn push_converted<F: Fn(u8, u8, u8) -> [u8; 3]>(
    rgba: &mut Vec<u8>,
    sample: (u8, u8, u8),
    convert: &F,
)
    requires
        call_requires(*convert, sample),
        old(rgba)@.len() % 4 == 0,
    ensures
        final(rgba)@.len() == old(rgba)@.len() + 4,
        final(rgba)@.take(old(rgba)@.len() as int) == old(rgba)@,
        is_converted_pixel(
            final(rgba)@,
            (old(rgba)@.len() / 4) as int,
            sample,
            *convert,
        ),
{
    let rgb: [u8; 3] = convert(sample.0, sample.1, sample.2);
    rgba.push(rgb[0]);
    rgba.push(rgb[1]);
    rgba.push(rgb[2]);
    rgba.push(255);
    proof {
        assert(rgba@.take(old(rgba)@.len() as int) =~= old(rgba)@);
        let i = (old(rgba)@.len() / 4) as int;
        assert(4 * i == old(rgba)@.len());
        assert(call_ensures(*convert, sample, rgb));
        assert(is_converted_pixel(rgba@, i, sample, *convert));
    }
}

/// The sample of pixel `(x, y)` of an NV12 frame.
pub open spec fn nv12_sample(nv12: Seq<u8>, width: int, height: int, x: int, y: int) -> (u8, u8, u8) {
    let chroma = width * height + 2 * ((y / 2) * chroma_side(width) + x / 2);
    let pair = neutralized(nv12[chroma], nv12[chroma + 1]);
    (nv12[y * width + x], pair.0, pair.1)
}

/// Converts a staged NV12 frame to packed RGBA, with `convert` from luma and chroma to colour.
pub fn push_staged_nv12_as_rgba<F: Fn(u8, u8, u8) -> [u8; 3]>(
    width: usize,
    height: usize,
    nv12: &Vec<u8>,
    convert: &F,
) -> (rgba: Result<Vec<u8>, StagingError>)
    requires
        forall|sample: (u8, u8, u8)| #[trigger] call_requires(*convert, sample),
        nv12@.len() >= nv12_len(width as int, height as int),
    ensures
        match rgba {
            Ok(bytes) => {
                &&& 4 * (width * height) <= usize::MAX
                &&& is_converted(
                    bytes@,
                    width as nat,
                    height as nat,
                    |x: int, y: int| nv12_sample(nv12@, width as int, height as int, x, y),
                    *convert,
                )
            },
            Err(error) => error == StagingError::SizeOverflow && 4 * (width * height) > usize::MAX,
        },
{
    let length: usize = nv12.len();
    let pixels: usize = match width.checked_mul(height) {
        Some(pixels) => pixels,
        None => {
            return Err(StagingError::SizeOverflow);
        },
    };
    let rgba_len: usize = match pixels.checked_mul(4) {
        Some(rgba_len) => rgba_len,
        None => {
            return Err(StagingError::SizeOverflow);
        },
    };
    let ghost at = |x: int, y: int| nv12_sample(nv12@, width as int, height as int, x, y);
    let ghost samples = raster(width as nat, height as nat, at);
    let chroma_width: usize = width / 2 + width % 2;
    let ghost chroma_height = chroma_side(height as int);
    let mut rgba: Vec<u8> = Vec::with_capacity(rgba_len);
    let mut row: usize = 0;
    proof {
        assert(0 <= chroma_side(width as int) * chroma_height) by (nonlinear_arith)
            requires
                0 <= chroma_side(width as int),
                0 <= chroma_height,
        ;
    }
    while row < height
        invariant
            forall|sample: (u8, u8, u8)| #[trigger] call_requires(*convert, sample),
            row <= height,
            pixels == width * height,
            length == nv12@.len(),
            length >= nv12_len(width as int, height as int),
            chroma_width == chroma_side(width as int),
            chroma_height == chroma_side(height as int),
            at == (|x: int, y: int| nv12_sample(nv12@, width as int, height as int, x, y)),
            samples == raster(width as nat, height as nat, at),
            rgba@.len() == 4 * (row * width),
            row * width <= samples.len(),
            forall|i: int|
                0 <= i < row * width ==> #[trigger] is_converted_pixel(rgba@, i, samples[i], *convert),
        decreases height - row,
    {
        let mut column: usize = 0;
        while column < width
            invariant
                forall|sample: (u8, u8, u8)| #[trigger] call_requires(*convert, sample),
                row < height,
                column <= width,
                pixels == width * height,
                length == nv12@.len(),
                length >= nv12_len(width as int, height as int),
                chroma_width == chroma_side(width as int),
                chroma_height == chroma_side(height as int),
                at == (|x: int, y: int| nv12_sample(nv12@, width as int, height as int, x, y)),
                samples == raster(width as nat, height as nat, at),
                rgba@.len() == 4 * (row * width + column),
                row * width + column <= samples.len(),
                forall|i: int|
                    0 <= i < row * width + column ==> #[trigger] is_converted_pixel(
                        rgba@,
                        i,
                        samples[i],
                        *convert,
                    ),
            decreases width - column,
        {
            proof {
                lemma_raster_push(width as nat, height as nat, at, column as int, row as int);
                lemma_position_bound(
                    chroma_width as nat,
                    chroma_height as nat,
                    column as int / 2,
                    row as int / 2,
                );
                assert(0 <= row * width) by (nonlinear_arith);
                assert(0 <= (row as int / 2) * chroma_width) by (nonlinear_arith)
                    requires
                        0 <= row,
                        0 <= chroma_width,
                ;
            }
            let luma_index: usize = row * width + column;
            let chroma_index: usize = pixels + 2 * ((row / 2) * chroma_width + column / 2);
            let y: u8 = nv12[luma_index];
            let mut u: u8 = nv12[chroma_index];
            let mut v: u8 = nv12[chroma_index + 1];
            neutralize_zero_chroma(&mut u, &mut v);
            let ghost before = rgba@;
            push_converted(&mut rgba, (y, u, v), convert);
            proof {
                let now = row * width + column;
                assert(samples[now] == (y, u, v));
                assert forall|i: int| 0 <= i < now + 1 implies #[trigger] is_converted_pixel(
                    rgba@,
                    i,
                    samples[i],
                    *convert,
                ) by {
                    if i < now {
                        lemma_converted_prefix(before, rgba@, i, samples[i], *convert);
                    } else {
                        assert(4 * now / 4 == now);
                    }
                }
            }
            column = column + 1;
        }
        proof {
            lemma_next_row(width as nat, row as int);
        }
        row = row + 1;
    }
    proof {
        assert(height * width == width * height) by (nonlinear_arith);
    }
    Ok(rgba)
}

proof fn lemma_converted_prefix<F: Fn(u8, u8, u8) -> [u8; 3]>(
    before: Seq<u8>,
    after: Seq<u8>,
    i: int,
    sample: (u8, u8, u8),
    convert: F,
)
    requires
        0 <= i,
        4 * i + 4 <= before.len() <= after.len(),
        after.take(before.len() as int) == before,
        is_converted_pixel(before, i, sample, convert),
    ensures
        is_converted_pixel(after, i, sample, convert),
{
    let rgb = choose|rgb: [u8; 3]| #[trigger]
        call_ensures(convert, sample, rgb) && before[4 * i] == rgb@[0] && before[4 * i + 1]
            == rgb@[1] && before[4 * i + 2] == rgb@[2] && before[4 * i + 3] == 255;
    let head = after.take(before.len() as int);
    assert(head[4 * i] == after[4 * i]);
    assert(head[4 * i + 1] == after[4 * i + 1]);
    assert(head[4 * i + 2] == after[4 * i + 2]);
    assert(head[4 * i + 3] == after[4 * i + 3]);
    assert(call_ensures(convert, sample, rgb));
}

// ---------------------------------------------------------------------------
// Images with a single visible plane
// ---------------------------------------------------------------------------

/// Length of the luma part of a single plane.
pub open spec fn packed_luma_len(plane: ImagePlane<'_>, image_height: int) -> int {
    plane.row_stride * image_height
}

/// Length of the chroma part that may follow it.
pub open spec fn packed_chroma_len(plane: ImagePlane<'_>, image_height: int) -> int {
    plane.row_stride * chroma_side(image_height)
}

/// The plane goes on with interleaved chroma behind its luma.
pub open spec fn has_contiguous_chroma(plane: ImagePlane<'_>, image_height: int) -> bool {
    plane.data@.len() >= packed_luma_len(plane, image_height) + packed_chroma_len(
        plane,
        image_height,
    )
}

/// The sample of staged pixel `(x, y)` of a single plane. Luma is read with the crop offset;
/// chroma, where the plane holds it, is read from the start of its part.
pub open spec fn packed_sample(
    region: Region,
    plane: ImagePlane<'_>,
    image_height: int,
    x: int,
    y: int,
) -> (u8, u8, u8) {
    let luma_len = packed_luma_len(plane, image_height);
    let luma_at = plane.offset(region.left + x, region.top + y);
    let luma = if luma_at < plane.data@.len() && luma_at < luma_len {
        plane.data@[luma_at]
    } else {
        MISSING_LUMA
    };
    let chroma_at = (y / 2) * plane.row_stride + 2 * (x / 2);
    let chroma_len = packed_chroma_len(plane, image_height);
    let chroma = |at: int|
        if has_contiguous_chroma(plane, image_height) && at < chroma_len {
            plane.data@[luma_len + at]
        } else {
            NEUTRAL_CHROMA
        };
    let pair = neutralized(chroma(chroma_at), chroma(chroma_at + 1));
    (luma, pair.0, pair.1)
}

/// Every size and offset that staging the plane computes lies in the address range.
pub open spec fn packed_addressable(
    region: Region,
    plane: ImagePlane<'_>,
    image_height: int,
) -> bool {
    &&& packed_luma_len(plane, image_height) <= usize::MAX
    &&& packed_chroma_len(plane, image_height) <= usize::MAX
    &&& 4 * (region.width * region.height) <= usize::MAX
    &&& plane.addressable(
        region.left as int,
        region.top as int,
        region.width as int,
        region.height as int,
    )
}

/// Reads the sample of one staged pixel of a single plane.
fn read_packed_sample(
    region: &Region,
    plane: &ImagePlane<'_>,
    image_height: usize,
    luma_len: usize,
    chroma_len: usize,
    x: usize,
    y: usize,
) -> (sample: (u8, u8, u8))
    requires
        region.left + region.width <= MAX_IMAGE_SIDE,
        region.top + region.height <= image_height <= MAX_IMAGE_SIDE,
        x < region.width,
        y < region.height,
        luma_len == packed_luma_len(*plane, image_height as int),
        chroma_len == packed_chroma_len(*plane, image_height as int),
        plane.addressable(
            region.left as int,
            region.top as int,
            region.width as int,
            region.height as int,
        ),
    ensures
        sample == packed_sample(*region, *plane, image_height as int, x as int, y as int),
{
    proof {
        lemma_offset_monotone(
            *plane,
            region.left + x,
            region.top + y,
            region.left + region.width - 1,
            region.top + region.height - 1,
        );
    }
    let length: usize = plane.data.len();
    let luma_at: usize = (region.top + y) * plane.row_stride + (region.left + x)
        * plane.pixel_stride;
    let luma: u8 = if luma_at < length && luma_at < luma_len {
        plane.data[luma_at]
    } else {
        MISSING_LUMA
    };
    let contiguous: bool = luma_len <= length && chroma_len <= length - luma_len;
    let mut u: u8 = NEUTRAL_CHROMA;
    let mut v: u8 = NEUTRAL_CHROMA;
    let row: usize = y / 2;
    let stride: usize = plane.row_stride;
    proof {
        assert(row * stride <= chroma_len) by (nonlinear_arith)
            requires
                row <= chroma_side(image_height as int),
                chroma_len == stride * chroma_side(image_height as int),
        ;
        assert(0 <= row * stride) by (nonlinear_arith);
        assert(row * stride == (y as int / 2) * plane.row_stride);
    }
    if contiguous {
        let row_start: usize = row * stride;
        let column: usize = 2 * (x / 2);
        let remaining: usize = chroma_len - row_start;
        if column < remaining {
            u = plane.data[luma_len + (row_start + column)];
        }
        if column + 1 < remaining {
            v = plane.data[luma_len + (row_start + (column + 1))];
        }
    }
    neutralize_zero_chroma(&mut u, &mut v);
    (luma, u, v)
}

/// Stages an image of which only one plane is visible as packed RGBA. The plane may go on with
/// interleaved chroma; otherwise the picture is grey.
pub fn stage_packed_yuv_as_rgba<F: Fn(u8, u8, u8) -> [u8; 3]>(
    region: &Region,
    plane: &ImagePlane<'_>,
    image_height: usize,
    convert: &F,
) -> (rgba: Result<Vec<u8>, StagingError>)
    requires
        forall|sample: (u8, u8, u8)| #[trigger] call_requires(*convert, sample),
        region.left + region.width <= MAX_IMAGE_SIDE,
        region.top + region.height <= image_height <= MAX_IMAGE_SIDE,
    ensures
        match rgba {
            Ok(bytes) => {
                &&& packed_addressable(*region, *plane, image_height as int)
                &&& is_converted(
                    bytes@,
                    region.width as nat,
                    region.height as nat,
                    |x: int, y: int| packed_sample(*region, *plane, image_height as int, x, y),
                    *convert,
                )
            },
            Err(error) => {
                &&& error == StagingError::SizeOverflow
                &&& !packed_addressable(*region, *plane, image_height as int)
            },
        },
{
    let luma_len: usize = match plane.row_stride.checked_mul(image_height) {
        Some(luma_len) => luma_len,
        None => {
            return Err(StagingError::SizeOverflow);
        },
    };
    let chroma_len: usize = match plane.row_stride.checked_mul((image_height + 1) / 2) {
        Some(chroma_len) => chroma_len,
        None => {
            return Err(StagingError::SizeOverflow);
        },
    };
    let width: usize = region.width;
    let height: usize = region.height;
    let rgba_len: usize = match width.checked_mul(height) {
        Some(pixels) => match pixels.checked_mul(4) {
            Some(rgba_len) => rgba_len,
            None => {
                return Err(StagingError::SizeOverflow);
            },
        },
        None => {
            return Err(StagingError::SizeOverflow);
        },
    };
    if !region_addressable(plane, region.left, region.top, width, height) {
        return Err(StagingError::SizeOverflow);
    }
    let ghost at = |x: int, y: int| packed_sample(*region, *plane, image_height as int, x, y);
    let ghost samples = raster(width as nat, height as nat, at);
    let mut rgba: Vec<u8> = Vec::with_capacity(rgba_len);
    let mut row: usize = 0;
    while row < height
        invariant
            forall|sample: (u8, u8, u8)| #[trigger] call_requires(*convert, sample),
            row <= height,
            width == region.width,
            height == region.height,
            region.left + region.width <= MAX_IMAGE_SIDE,
            region.top + region.height <= image_height <= MAX_IMAGE_SIDE,
            luma_len == packed_luma_len(*plane, image_height as int),
            chroma_len == packed_chroma_len(*plane, image_height as int),
            plane.addressable(
                region.left as int,
                region.top as int,
                region.width as int,
                region.height as int,
            ),
            at == (|x: int, y: int| packed_sample(*region, *plane, image_height as int, x, y)),
            samples == raster(width as nat, height as nat, at),
            rgba@.len() == 4 * (row * width),
            row * width <= samples.len(),
            forall|i: int|
                0 <= i < row * width ==> #[trigger] is_converted_pixel(rgba@, i, samples[i], *convert),
        decreases height - row,
    {
        let mut column: usize = 0;
        while column < width
            invariant
                forall|sample: (u8, u8, u8)| #[trigger] call_requires(*convert, sample),
                row < height,
                column <= width,
                width == region.width,
                height == region.height,
                region.left + region.width <= MAX_IMAGE_SIDE,
                region.top + region.height <= image_height <= MAX_IMAGE_SIDE,
                luma_len == packed_luma_len(*plane, image_height as int),
                chroma_len == packed_chroma_len(*plane, image_height as int),
                plane.addressable(
                    region.left as int,
                    region.top as int,
                    region.width as int,
                    region.height as int,
                ),
                at == (|x: int, y: int| packed_sample(*region, *plane, image_height as int, x, y)),
                samples == raster(width as nat, height as nat, at),
                rgba@.len() == 4 * (row * width + column),
                row * width + column <= samples.len(),
                forall|i: int|
                    0 <= i < row * width + column ==> #[trigger] is_converted_pixel(
                        rgba@,
                        i,
                        samples[i],
                        *convert,
                    ),
            decreases width - column,
        {
            proof {
                lemma_raster_push(width as nat, height as nat, at, column as int, row as int);
                assert(0 <= row * width) by (nonlinear_arith);
            }
            let sample = read_packed_sample(
                region,
                plane,
                image_height,
                luma_len,
                chroma_len,
                column,
                row,
            );
            let ghost before = rgba@;
            push_converted(&mut rgba, sample, convert);
            proof {
                let now = row * width + column;
                assert(samples[now] == sample);
                assert forall|i: int| 0 <= i < now + 1 implies #[trigger] is_converted_pixel(
                    rgba@,
                    i,
                    samples[i],
                    *convert,
                ) by {
                    if i < now {
                        lemma_converted_prefix(before, rgba@, i, samples[i], *convert);
                    } else {
                        assert(4 * now / 4 == now);
                    }
                }
            }
            column = column + 1;
        }
        proof {
            lemma_next_row(width as nat, row as int);
        }
        row = row + 1;
    }
    proof {
        assert(height * width == width * height) by (nonlinear_arith);
    }
    Ok(rgba)
}

// ---------------------------------------------------------------------------
// RGBA images
// ---------------------------------------------------------------------------

/// The packed pixels of an RGBA plane.
pub open spec fn packed_rgba(width: nat, height: nat, plane: ImagePlane<'_>) -> Seq<Seq<u8>> {
    raster(
        width,
        height,
        |x: int, y: int| plane.data@.subrange(plane.offset(x, y), plane.offset(x, y) + 4),
    )
}

/// Stages an RGBA image: its pixels without the gaps between them. Every pixel has to lie inside
/// the plane.
pub fn stage_rgba_image(
    width: usize,
    height: usize,
    plane_count: usize,
    plane: &ImagePlane<'_>,
) -> (rgba: Result<Vec<u8>, StagingError>)
    requires
        width <= MAX_IMAGE_SIDE,
        height <= MAX_IMAGE_SIDE,
        width > 0 && height > 0 ==> plane.offset(width - 1, height - 1) + 4 <= plane.data@.len(),
    ensures
        match rgba {
            Ok(bytes) => {
                &&& plane_count >= 1
                &&& 4 * (width * height) <= usize::MAX
                &&& plane.addressable(0, 0, width as int, height as int)
                &&& bytes@ == crate::raster::flatten4(
                    packed_rgba(width as nat, height as nat, *plane),
                )
            },
            Err(StagingError::NoPlanes) => plane_count < 1,
            Err(StagingError::SizeOverflow) => {
                &&& plane_count >= 1
                &&& 4 * (width * height) > usize::MAX || !plane.addressable(
                    0,
                    0,
                    width as int,
                    height as int,
                )
            },
        },
{
    if plane_count < 1 {
        return Err(StagingError::NoPlanes);
    }
    let rgba_len: usize = match width.checked_mul(height) {
        Some(pixels) => match pixels.checked_mul(4) {
            Some(rgba_len) => rgba_len,
            None => {
                return Err(StagingError::SizeOverflow);
            },
        },
        None => {
            return Err(StagingError::SizeOverflow);
        },
    };
    if !region_addressable(plane, 0, 0, width, height) {
        return Err(StagingError::SizeOverflow);
    }
    let length: usize = plane.data.len();
    let ghost pixels = packed_rgba(width as nat, height as nat, *plane);
    let ghost bytes = crate::raster::flatten4(pixels);
    let ghost at = |x: int, y: int|
        plane.data@.subrange(plane.offset(x, y), plane.offset(x, y) + 4);
    let mut rgba: Vec<u8> = Vec::with_capacity(rgba_len);
    let mut row: usize = 0;
    let ghost mut done: int = 0;
    while row < height
        invariant
            row <= height,
            length == plane.data@.len(),
            width > 0 && height > 0 ==> plane.offset(width - 1, height - 1) + 4 <= length,
            at == (|x: int, y: int|
                plane.data@.subrange(plane.offset(x, y), plane.offset(x, y) + 4)),
            pixels == raster(width as nat, height as nat, at),
            bytes == crate::raster::flatten4(pixels),
            done == row * width,
            0 <= done <= pixels.len(),
            rgba@ =~= bytes.take(4 * done),
        decreases height - row,
    {
        let mut column: usize = 0;
        while column < width
            invariant
                row < height,
                column <= width,
                length == plane.data@.len(),
                width > 0 && height > 0 ==> plane.offset(width - 1, height - 1) + 4 <= length,
                at == (|x: int, y: int|
                    plane.data@.subrange(plane.offset(x, y), plane.offset(x, y) + 4)),
                pixels == raster(width as nat, height as nat, at),
                bytes == crate::raster::flatten4(pixels),
                done == row * width + column,
                0 <= done <= pixels.len(),
                rgba@ =~= bytes.take(4 * done),
            decreases width - column,
        {
            proof {
                lemma_raster_push(width as nat, height as nat, at, column as int, row as int);
                lemma_offset_monotone(*plane, column as int, row as int, width - 1, height - 1);
            }
            let start: usize = row * plane.row_stride + column * plane.pixel_stride;
            rgba.push(plane.data[start]);
            rgba.push(plane.data[start + 1]);
            rgba.push(plane.data[start + 2]);
            rgba.push(plane.data[start + 3]);
            proof {
                let pixel = pixels[done];
                assert(pixel == plane.data@.subrange(start as int, start + 4));
                assert(bytes[4 * done] == pixel[0]);
                assert(bytes[4 * done + 1] == pixel[1]);
                assert(bytes[4 * done + 2] == pixel[2]);
                assert(bytes[4 * done + 3] == pixel[3]);
                done = done + 1;
            }
            column = column + 1;
        }
        proof {
            lemma_next_row(width as nat, row as int);
        }
        row = row + 1;
    }
    proof {
        assert(height * width == width * height) by (nonlinear_arith);
        assert(bytes.take(4 * done) =~= bytes);
    }
    Ok(rgba)
}

/// Pixel formats that a decoded image can have.
#[derive(Clone, Copy, Debug, PartialEq, Eq, Structural)]
pub enum DecodedFormat {
    Yuv420,
    Rgba,
    Rgbx,
    Private,
    Other,
}

/// How a decoded image is staged.
#[derive(Clone, Copy, Debug, PartialEq, Eq, Structural)]
pub enum StagingKind {
    /// From three planes, through NV12.
    YuvPlanes,
    /// From the one plane that is visible.
    PackedYuv,
    /// As RGBA.
    Rgba,
    /// Not at all.
    NotStaged,
}

/// Chooses how to stage an image of the given format and number of planes.
pub fn stage_decoded_image(format: DecodedFormat, plane_count: usize) -> (kind: StagingKind)
    ensures
        kind == match format {
            DecodedFormat::Yuv420 => if plane_count >= 3 {
                StagingKind::YuvPlanes
            } else {
                StagingKind::PackedYuv
            },
            DecodedFormat::Rgba | DecodedFormat::Rgbx => StagingKind::Rgba,
            DecodedFormat::Private | DecodedFormat::Other => StagingKind::NotStaged,
        },
{
    match format {
        DecodedFormat::Yuv420 => if plane_count >= 3 {
            StagingKind::YuvPlanes
        } else {
            StagingKind::PackedYuv
        },
        DecodedFormat::Rgba | DecodedFormat::Rgbx => StagingKind::Rgba,
        DecodedFormat::Private | DecodedFormat::Other => StagingKind::NotStaged,
    }
}

// ---------------------------------------------------------------------------
// Laws
// ---------------------------------------------------------------------------

proof fn lemma_chroma_position(width: int, height: int, x: int, y: int)
    requires
        0 <= x < width,
        0 <= y < height,
    ensures
        0 <= x / 2 < chroma_side(width),
        0 <= y / 2 < chroma_side(height),
{
}

/// The luma plane of a staged frame comes first, row by row: pixel `(x, y)` is the sample of the
/// luma plane at the same place of the region, and black where the plane ends before it.
pub proof fn law_staged_luma_comes_from_its_plane(
    region: Region,
    y_plane: ImagePlane<'_>,
    u_plane: ImagePlane<'_>,
    v_plane: ImagePlane<'_>,
    x: int,
    y: int,
)
    requires
        0 <= x < region.width,
        0 <= y < region.height,
    ensures
        ({
            let at = (region.top + y) * y_plane.row_stride + (region.left + x)
                * y_plane.pixel_stride;
            staged_nv12(region, y_plane, u_plane, v_plane)[y * region.width + x] == if at
                < y_plane.data@.len() {
                y_plane.data@[at]
            } else {
                16
            }
        }),
{
    lemma_raster_push(
        region.width as nat,
        region.height as nat,
        |x: int, y: int| y_plane.sample(region.left + x, region.top + y, MISSING_LUMA),
        x,
        y,
    );
    lemma_position_bound(region.width as nat, region.height as nat, x, y);
}

/// Behind the luma a staged frame holds a pair for every block of two by two pixels: first the
/// sample of the U plane, then that of the V plane. A pair that the decoder did not write, or
/// that lies outside the planes, has no colour.
pub proof fn law_staged_chroma_comes_from_its_planes(
    region: Region,
    y_plane: ImagePlane<'_>,
    u_plane: ImagePlane<'_>,
    v_plane: ImagePlane<'_>,
    x: int,
    y: int,
)
    requires
        0 <= x < (region.width + 1) / 2,
        0 <= y < (region.height + 1) / 2,
    ensures
        ({
            let nv12 = staged_nv12(region, y_plane, u_plane, v_plane);
            let pair = region.width * region.height + 2 * (y * ((region.width + 1) / 2) + x);
            let u_at = (region.top / 2 + y) * u_plane.row_stride + (region.left / 2 + x)
                * u_plane.pixel_stride;
            let v_at = (region.top / 2 + y) * v_plane.row_stride + (region.left / 2 + x)
                * v_plane.pixel_stride;
            let u: u8 = if u_at < u_plane.data@.len() {
                u_plane.data@[u_at]
            } else {
                128
            };
            let v: u8 = if v_at < v_plane.data@.len() {
                v_plane.data@[v_at]
            } else {
                128
            };
            &&& u != 0 || v != 0 ==> nv12[pair] == u && nv12[pair + 1] == v
            &&& u == 0 && v == 0 ==> nv12[pair] == 128 && nv12[pair + 1] == 128
        }),
{
    let width = chroma_side(region.width as int) as nat;
    let height = chroma_side(region.height as int) as nat;
    let left = region.left / 2;
    let top = region.top / 2;
    let at = |x: int, y: int|
        neutralized(
            u_plane.sample(left + x, top + y, NEUTRAL_CHROMA),
            v_plane.sample(left + x, top + y, NEUTRAL_CHROMA),
        );
    lemma_raster_push(width, height, at, x, y);
    lemma_position_bound(width, height, x, y);
    let pairs = staged_chroma(region, u_plane, v_plane);
    assert(pairs == raster(width, height, at));
    let luma = staged_luma(region, y_plane);
    let i = y * width + x;
    assert(luma.len() == region.width * region.height);
    let nv12 = staged_nv12(region, y_plane, u_plane, v_plane);
    assert(nv12[luma.len() + 2 * i] == flatten2(pairs)[2 * i]);
    assert(nv12[luma.len() + 2 * i + 1] == flatten2(pairs)[2 * i + 1]);
}

/// From the planes to the samples that are converted: of a frame that was staged from planes,
/// pixel `(x, y)` is read back as the sample of the luma plane, then the sample of the U plane,
/// then the sample of the V plane, the chroma being that of its block of two by two pixels.
pub proof fn law_staged_samples_are_read_back(
    region: Region,
    y_plane: ImagePlane<'_>,
    u_plane: ImagePlane<'_>,
    v_plane: ImagePlane<'_>,
    x: int,
    y: int,
)
    requires
        0 <= x < region.width,
        0 <= y < region.height,
    ensures
        ({
            let read = nv12_sample(
                staged_nv12(region, y_plane, u_plane, v_plane),
                region.width as int,
                region.height as int,
                x,
                y,
            );
            let luma = y_plane.sample(region.left + x, region.top + y, 16);
            let u = u_plane.sample(region.left / 2 + x / 2, region.top / 2 + y / 2, 128);
            let v = v_plane.sample(region.left / 2 + x / 2, region.top / 2 + y / 2, 128);
            &&& u != 0 || v != 0 ==> read == (luma, u, v)
            &&& u == 0 && v == 0 ==> read == (luma, 128u8, 128u8)
        }),
{
    law_staged_luma_comes_from_its_plane(region, y_plane, u_plane, v_plane, x, y);
    lemma_chroma_position(region.width as int, region.height as int, x, y);
    law_staged_chroma_comes_from_its_planes(region, y_plane, u_plane, v_plane, x / 2, y / 2);
}

/// From the planes to the picture: where an image is staged from planes and then converted, the
/// four bytes of pixel `(x, y)` are the red, green and blue that the conversion gives for the
/// luma sample, the U sample and the V sample of the pixel, in this order, and full opacity.
pub proof fn law_staged_pictures_show_the_planes<F: Fn(u8, u8, u8) -> [u8; 3]>(
    region: Region,
    y_plane: ImagePlane<'_>,
    u_plane: ImagePlane<'_>,
    v_plane: ImagePlane<'_>,
    convert: F,
    bytes: Seq<u8>,
    x: int,
    y: int,
)
    requires
        0 <= x < region.width,
        0 <= y < region.height,
        is_converted(
            bytes,
            region.width as nat,
            region.height as nat,
            |x: int, y: int|
                nv12_sample(
                    staged_nv12(region, y_plane, u_plane, v_plane),
                    region.width as int,
                    region.height as int,
                    x,
                    y,
                ),
            convert,
        ),
    ensures
        ({
            let luma = y_plane.sample(region.left + x, region.top + y, 16);
            let u = u_plane.sample(region.left / 2 + x / 2, region.top / 2 + y / 2, 128);
            let v = v_plane.sample(region.left / 2 + x / 2, region.top / 2 + y / 2, 128);
            let pixel = 4 * (y * region.width + x);
            u != 0 || v != 0 ==> exists|rgb: [u8; 3]| #[trigger]
                call_ensures(convert, (luma, u, v), rgb) && bytes.subrange(pixel, pixel + 4)
                    == rgb@ + seq![255u8]
        }),
{
    let at = |x: int, y: int|
        nv12_sample(
            staged_nv12(region, y_plane, u_plane, v_plane),
            region.width as int,
            region.height as int,
            x,
            y,
        );
    law_staged_samples_are_read_back(region, y_plane, u_plane, v_plane, x, y);
    lemma_shown_pixel(bytes, region.width as nat, region.height as nat, at, convert, x, y);
}

proof fn lemma_shown_pixel<F: Fn(u8, u8, u8) -> [u8; 3]>(
    bytes: Seq<u8>,
    width: nat,
    height: nat,
    at: spec_fn(int, int) -> (u8, u8, u8),
    convert: F,
    x: int,
    y: int,
)
    requires
        0 <= x < width,
        0 <= y < height,
        is_converted(bytes, width, height, at, convert),
    ensures
        exists|rgb: [u8; 3]| #[trigger]
            call_ensures(convert, at(x, y), rgb) && bytes.subrange(
                4 * (y * width + x),
                4 * (y * width + x) + 4,
            ) == rgb@ + seq![255u8],
{
    let i = y * width + x;
    lemma_raster_push(width, height, at, x, y);
    lemma_position_bound(width, height, x, y);
    assert(is_converted_pixel(bytes, i, raster(width, height, at)[i], convert));
    let rgb = choose|rgb: [u8; 3]| #[trigger]
        call_ensures(convert, at(x, y), rgb) && bytes[4 * i] == rgb@[0] && bytes[4 * i + 1]
            == rgb@[1] && bytes[4 * i + 2] == rgb@[2] && bytes[4 * i + 3] == 255;
    assert(bytes.subrange(4 * i, 4 * i + 4) =~= rgb@ + seq![255u8]);
}

/// Whatever is converted, the picture is row-major and opaque: the four bytes of pixel `(x, y)`
/// are the red, green and blue of its own sample, in this order, and full opacity.
pub proof fn law_pictures_are_row_major_and_opaque<F: Fn(u8, u8, u8) -> [u8; 3]>(
    bytes: Seq<u8>,
    width: nat,
    height: nat,
    at: spec_fn(int, int) -> (u8, u8, u8),
    convert: F,
    x: int,
    y: int,
)
    requires
        0 <= x < width,
        0 <= y < height,
        is_converted(bytes, width, height, at, convert),
    ensures
        bytes.len() == 4 * (width * height),
        exists|rgb: [u8; 3]| #[trigger]
            call_ensures(convert, at(x, y), rgb) && bytes.subrange(
                4 * (y * width + x),
                4 * (y * width + x) + 4,
            ) == rgb@ + seq![255u8],
{
    lemma_shown_pixel(bytes, width, height, at, convert, x, y);
}

/// A single plane that holds a whole NV12 frame of even width without gaps is read as that frame:
/// staging it directly and staging it through NV12 convert the same samples.
pub proof fn law_packed_frames_are_read_as_nv12(
    plane: ImagePlane<'_>,
    width: usize,
    height: usize,
    x: int,
    y: int,
)
    requires
        0 <= x < width,
        0 <= y < height,
        width % 2 == 0,
        plane.row_stride == width,
        plane.pixel_stride == 1,
        plane.data@.len() == nv12_len(width as int, height as int),
    ensures
        packed_sample(
            Region { left: 0, top: 0, width, height },
            plane,
            height as int,
            x,
            y,
        ) == nv12_sample(plane.data@, width as int, height as int, x, y),
{
    let w = width as int;
    let h = height as int;
    let half = chroma_side(w);
    lemma_position_bound(width as nat, height as nat, x, y);
    lemma_chroma_position(w, h, x, y);
    lemma_position_bound(half as nat, chroma_side(h) as nat, x / 2, y / 2);
    assert(w == 2 * half);
    assert((y / 2) * w == 2 * ((y / 2) * half)) by (nonlinear_arith)
        requires
            w == 2 * half,
    ;
    assert(w * chroma_side(h) == 2 * (half * chroma_side(h))) by (nonlinear_arith)
        requires
            w == 2 * half,
    ;
}

/// Of a single plane the luma is read at the place of the pixel in the image and the chroma from
/// the rows behind the luma, U before V, one pair for every two pixels of every two rows. A plane
/// that ends with its luma gives a grey picture.
pub proof fn law_packed_samples_come_from_the_plane(
    region: Region,
    plane: ImagePlane<'_>,
    image_height: int,
    x: int,
    y: int,
)
    requires
        0 <= x < region.width,
        0 <= y < region.height,
        region.top + region.height <= image_height,
    ensures
        ({
            let sample = packed_sample(region, plane, image_height, x, y);
            let luma_len = plane.row_stride * image_height;
            let chroma_len = plane.row_stride * ((image_height + 1) / 2);
            let luma_at = (region.top + y) * plane.row_stride + (region.left + x)
                * plane.pixel_stride;
            let u_at = (y / 2) * plane.row_stride + 2 * (x / 2);
            &&& luma_at < luma_len && luma_at < plane.data@.len() ==> sample.0
                == plane.data@[luma_at]
            &&& luma_at >= luma_len || luma_at >= plane.data@.len() ==> sample.0 == 16
            &&& plane.data@.len() < luma_len + chroma_len ==> sample.1 == 128 && sample.2 == 128
            &&& plane.data@.len() >= luma_len + chroma_len && u_at + 1 < chroma_len ==> {
                let u = plane.data@[luma_len + u_at];
                let v = plane.data@[luma_len + u_at + 1];
                if u == 0 && v == 0 {
                    sample.1 == 128 && sample.2 == 128
                } else {
                    sample.1 == u && sample.2 == v
                }
            }
        }),
{
}

/// A staged RGBA image keeps the four bytes of every pixel in their order, and every pixel in its
/// place.
pub proof fn law_staged_rgba_keeps_the_pixels(
    width: nat,
    height: nat,
    plane: ImagePlane<'_>,
    x: int,
    y: int,
    channel: int,
)
    requires
        0 <= x < width,
        0 <= y < height,
        0 <= channel < 4,
    ensures
        ({
            let bytes = crate::raster::flatten4(packed_rgba(width, height, plane));
            &&& bytes.len() == 4 * (width * height)
            &&& 0 <= y * plane.row_stride + x * plane.pixel_stride && y * plane.row_stride + x
                * plane.pixel_stride + 4 <= plane.data@.len() ==> bytes[4 * (y * width + x)
                + channel] == plane.data@[y * plane.row_stride + x * plane.pixel_stride + channel]
        }),
{
    let at = |x: int, y: int|
        plane.data@.subrange(plane.offset(x, y), plane.offset(x, y) + 4);
    lemma_raster_push(width, height, at, x, y);
    lemma_position_bound(width, height, x, y);
    let pixels = packed_rgba(width, height, plane);
    assert(pixels == raster(width, height, at));
    let i = 4 * (y * width + x) + channel;
    assert(i / 4 == y * width + x && i % 4 == channel);
}

/// A crop rectangle inside the image is staged as it is. One that reaches over the left or the
/// upper edge starts at the edge. One that is empty or reaches over the right or the lower edge,
/// and no rectangle at all, stage the whole image.
pub proof fn law_crop_is_staged_as_it_is(crop: CropRect, width: usize, height: usize)
    requires
        width <= MAX_IMAGE_SIDE,
        height <= MAX_IMAGE_SIDE,
    ensures
        ({
            let region = staged_region(Some(crop), width, height);
            let whole = staged_region(None, width, height);
            &&& whole.left == 0 && whole.top == 0
            &&& whole.width == width && whole.height == height
            &&& 0 <= crop.left < crop.right <= width && 0 <= crop.top < crop.bottom <= height ==> {
                &&& region.left == crop.left
                &&& region.top == crop.top
                &&& region.left + region.width == crop.right
                &&& region.top + region.height == crop.bottom
            }
            &&& crop.left < 0 < crop.right <= width && crop.top < 0 < crop.bottom <= height ==> {
                &&& region.left == 0 && region.top == 0
                &&& region.width == crop.right && region.height == crop.bottom
            }
            &&& crop.right <= crop.left || crop.bottom <= crop.top || crop.right > width
                || crop.bottom > height || crop.right <= 0 || crop.bottom <= 0 ==> region == whole
        }),
{
}

/// An image in planes goes through NV12 only where all three planes are there. Colours that are
/// packed already are copied, with or without opacity, and what cannot be read is left alone.
pub proof fn law_formats_are_staged_as_they_are_stored(
    format: DecodedFormat,
    plane_count: usize,
    kind: StagingKind,
)
    requires
        call_ensures(stage_decoded_image, (format, plane_count), kind),
    ensures
        kind == StagingKind::YuvPlanes <==> format == DecodedFormat::Yuv420 && plane_count > 2,
        kind == StagingKind::PackedYuv <==> format == DecodedFormat::Yuv420 && plane_count < 3,
        kind == StagingKind::Rgba <==> format == DecodedFormat::Rgba || format
            == DecodedFormat::Rgbx,
        kind == StagingKind::NotStaged <==> format == DecodedFormat::Private || format
            == DecodedFormat::Other,
{
}

/// The sample of a column and a row lies behind as many rows as stand above it and as many samples
/// as stand before it. Behind the end of a plane there is none.
pub proof fn law_planes_are_read_by_their_strides(plane: ImagePlane<'_>, x: int, y: int, other: u8)
    ensures
        ({
            let at = y * plane.row_stride + x * plane.pixel_stride;
            &&& at < plane.data@.len() ==> plane.sample(x, y, other) == plane.data@[at]
            &&& at >= plane.data@.len() ==> plane.sample(x, y, other) == other
        }),
{
}

/// An image that is staged from its planes and then turned into colours shows, at every pixel, the
/// colour that the conversion gives for the luma, the U and the V of that pixel, in this order. A
/// pixel without any chroma is grey.
pub proof fn law_images_are_shown_as_their_planes<F: Fn(u8, u8, u8) -> [u8; 3]>(
    region: Region,
    y_plane: ImagePlane<'_>,
    u_plane: ImagePlane<'_>,
    v_plane: ImagePlane<'_>,
    convert: F,
    nv12: Vec<u8>,
    rgba: Vec<u8>,
    x: int,
    y: int,
)
    requires
        0 <= x < region.width,
        0 <= y < region.height,
        call_ensures(
            stage_yuv420_image_as_nv12,
            (&region, &y_plane, &u_plane, &v_plane),
            Ok::<Vec<u8>, StagingError>(nv12),
        ),
        call_ensures(
            push_staged_nv12_as_rgba::<F>,
            (region.width, region.height, &nv12, &convert),
            Ok::<Vec<u8>, StagingError>(rgba),
        ),
    ensures
        ({
            let luma = y_plane.sample(region.left + x, region.top + y, 16);
            let u = u_plane.sample(region.left / 2 + x / 2, region.top / 2 + y / 2, 128);
            let v = v_plane.sample(region.left / 2 + x / 2, region.top / 2 + y / 2, 128);
            let pixel = 4 * (y * region.width + x);
            &&& u != 0 || v != 0 ==> exists|rgb: [u8; 3]| #[trigger]
                call_ensures(convert, (luma, u, v), rgb) && rgba@.subrange(pixel, pixel + 4)
                    == rgb@ + seq![255u8]
            &&& u == 0 && v == 0 ==> exists|rgb: [u8; 3]| #[trigger]
                call_ensures(convert, (luma, 128u8, 128u8), rgb) && rgba@.subrange(pixel, pixel + 4)
                    == rgb@ + seq![255u8]
        }),
{
    let at = |x: int, y: int|
        nv12_sample(nv12@, region.width as int, region.height as int, x, y);
    law_staged_samples_are_read_back(region, y_plane, u_plane, v_plane, x, y);
    lemma_shown_pixel(rgba@, region.width as nat, region.height as nat, at, convert, x, y);
}

/// A staged frame holds the luma of every pixel, row by row, and behind it the U and the V of every
/// two pixels of every two rows, next to each other.
pub proof fn law_staged_frames_are_laid_out_as_nv12(
    region: Region,
    y_plane: ImagePlane<'_>,
    u_plane: ImagePlane<'_>,
    v_plane: ImagePlane<'_>,
    nv12: Vec<u8>,
    x: int,
    y: int,
)
    requires
        0 <= x < region.width,
        0 <= y < region.height,
        call_ensures(
            stage_yuv420_image_as_nv12,
            (&region, &y_plane, &u_plane, &v_plane),
            Ok::<Vec<u8>, StagingError>(nv12),
        ),
    ensures
        ({
            let width = region.width as int;
            let chroma = width * region.height + 2 * ((y / 2) * ((width + 1) / 2) + x / 2);
            let u = u_plane.sample(region.left / 2 + x / 2, region.top / 2 + y / 2, 128);
            let v = v_plane.sample(region.left / 2 + x / 2, region.top / 2 + y / 2, 128);
            &&& nv12@.len() == width * region.height + 2 * (((width + 1) / 2) * ((region.height + 1)
                / 2))
            &&& nv12@[y * width + x] == y_plane.sample(region.left + x, region.top + y, 16)
            &&& u != 0 || v != 0 ==> nv12@[chroma] == u && nv12@[chroma + 1] == v
        }),
{
    law_staged_luma_comes_from_its_plane(region, y_plane, u_plane, v_plane, x, y);
    lemma_chroma_position(region.width as int, region.height as int, x, y);
    law_staged_chroma_comes_from_its_planes(region, y_plane, u_plane, v_plane, x / 2, y / 2);
}

/// An image in a single plane is shown pixel by pixel with the luma and the chroma that the plane
/// holds for it.
pub proof fn law_packed_images_are_shown_as_their_plane<F: Fn(u8, u8, u8) -> [u8; 3]>(
    region: Region,
    plane: ImagePlane<'_>,
    image_height: usize,
    convert: F,
    rgba: Vec<u8>,
    x: int,
    y: int,
)
    requires
        0 <= x < region.width,
        0 <= y < region.height,
        call_ensures(
            stage_packed_yuv_as_rgba::<F>,
            (&region, &plane, image_height, &convert),
            Ok::<Vec<u8>, StagingError>(rgba),
        ),
    ensures
        rgba@.len() == 4 * (region.width * region.height),
        exists|rgb: [u8; 3]| #[trigger]
            call_ensures(
                convert,
                packed_sample(region, plane, image_height as int, x, y),
                rgb,
            ) && rgba@.subrange(
                4 * (y * region.width + x),
                4 * (y * region.width + x) + 4,
            ) == rgb@ + seq![255u8],
{
    let at = |x: int, y: int| packed_sample(region, plane, image_height as int, x, y);
    lemma_shown_pixel(rgba@, region.width as nat, region.height as nat, at, convert, x, y);
}

/// An image of colours is copied without the gaps between its pixels.
pub proof fn law_coloured_images_are_copied(
    width: usize,
    height: usize,
    plane_count: usize,
    plane: ImagePlane<'_>,
    rgba: Result<Vec<u8>, StagingError>,
    x: int,
    y: int,
    channel: int,
)
    requires
        0 <= x < width,
        0 <= y < height,
        0 <= channel < 4,
        0 <= y * plane.row_stride + x * plane.pixel_stride,
        y * plane.row_stride + x * plane.pixel_stride + 4 <= plane.data@.len(),
        call_ensures(stage_rgba_image, (width, height, plane_count, &plane), rgba),
    ensures
        rgba is Ok ==> rgba->Ok_0@.len() == 4 * (width * height) && rgba->Ok_0@[4 * (y * width + x)
            + channel] == plane.data@[y * plane.row_stride + x * plane.pixel_stride + channel],
        plane_count == 0 <==> rgba == Err::<Vec<u8>, StagingError>(StagingError::NoPlanes),
{
    law_staged_rgba_keeps_the_pixels(width as nat, height as nat, plane, x, y, channel);
}

/// The crop rectangle is staged where it lies in the image. Chroma that is zero throughout is made
/// neutral, and other chroma is left as it is.
pub proof fn law_regions_lie_in_the_image(
    crop: CropRect,
    width: usize,
    height: usize,
    region: Region,
)
    requires
        width <= MAX_IMAGE_SIDE,
        height <= MAX_IMAGE_SIDE,
        call_ensures(select_region, (Some(crop), width, height), region),
    ensures
        0 <= crop.left < crop.right <= width && 0 <= crop.top < crop.bottom <= height ==> {
            &&& region.left == crop.left && region.left + region.width == crop.right
            &&& region.top == crop.top && region.top + region.height == crop.bottom
        },
        region.left + region.width <= width && region.top + region.height <= height,
        forall|u: &mut u8, v: &mut u8| #[trigger]
            call_ensures(neutralize_zero_chroma, (u, v), ()) ==> {
                &&& *u == 0 && *v == 0 ==> *final(u) == 128 && *final(v) == 128
                &&& *u != 0 || *v != 0 ==> *final(u) == *u && *final(v) == *v
            },
{
    law_crop_is_staged_as_it_is(crop, width, height);
}

} // verus!
