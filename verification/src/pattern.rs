//! The test picture of either eye, and the marker that moves over it.

use vstd::prelude::*;

use crate::raster::{flatten4, lemma_next_row, lemma_position_bound, lemma_raster_push, raster};
use crate::text::{decimal, format_decimal};

verus! {

// ---------------------------------------------------------------------------
// The picture
// ---------------------------------------------------------------------------

/// A side of at least one pixel.
pub open spec fn side(length: i32) -> nat {
    if length < 1 {
        1
    } else {
        length as nat
    }
}

/// A side of at least one pixel.
fn at_least_one(length: i32) -> (result: u64)
    ensures
        result == side(length),
        1 <= result <= 0x7fff_ffff,
{
    if length < 1 {
        1
    } else {
        length as u64
    }
}

/// The smaller of two numbers.
pub open spec fn smaller(a: int, b: int) -> int {
    if a < b {
        a
    } else {
        b
    }
}

/// The larger of two numbers.
pub open spec fn larger(a: int, b: int) -> int {
    if a < b {
        b
    } else {
        a
    }
}

/// How far two numbers are apart.
pub open spec fn distance(a: int, b: int) -> int {
    if a < b {
        b - a
    } else {
        a - b
    }
}

fn min_of(a: u64, b: u64) -> (result: u64)
    ensures
        result == smaller(a as int, b as int),
{
    if a < b {
        a
    } else {
        b
    }
}

fn max_of(a: u64, b: u64) -> (result: u64)
    ensures
        result == larger(a as int, b as int),
{
    if a < b {
        b
    } else {
        a
    }
}

fn distance_of(a: u64, b: u64) -> (result: u64)
    ensures
        result == distance(a as int, b as int),
{
    if a < b {
        b - a
    } else {
        a - b
    }
}

/// The bytes that a colour can hold: sums stop at the brightest one, differences at the darkest.
pub open spec fn saturated(value: int) -> int {
    if value < 0 {
        0
    } else if value > 255 {
        255
    } else {
        value
    }
}

/// Thickness of the lines through the middle.
pub open spec fn line_width(width: int, height: int) -> int {
    larger(smaller(width, height) / 180, 2)
}

/// Thickness of the frame.
pub open spec fn border_width(width: int, height: int) -> int {
    larger(smaller(width, height) / 80, 6)
}

/// Side of a square of the grid.
pub open spec fn grid_side(width: int, height: int) -> int {
    larger(smaller(width, height) / 12, 96)
}

/// Thickness of the lines of the grid.
pub open spec fn grid_line_width(width: int, height: int) -> int {
    larger(smaller(width, height) / 360, 2)
}

/// How far along a side a pixel is, from 0 to 255.
pub open spec fn progress(position: int, length: int) -> int {
    position * 255 / larger(length - 1, 1)
}

/// The colours before anything is drawn: a ramp that tells the eyes apart.
pub open spec fn ramp(width: int, height: int, left_eye: bool, x: int, y: int) -> (int, int, int) {
    let u = progress(x, width);
    let v = progress(y, height);
    if left_eye {
        (saturated(180 + u / 4), saturated(70 + v / 5), 28)
    } else {
        (24, saturated(130 + v / 5), saturated(180 + u / 4))
    }
}

/// Every second square of the grid is brighter.
pub open spec fn bright_square(width: int, height: int, x: int, y: int) -> bool {
    (x / grid_side(width, height)) % 2 != (y / grid_side(width, height)) % 2
}

/// The pixel is part of the frame.
pub open spec fn on_border(width: int, height: int, border: int, x: int, y: int) -> bool {
    x < border || y < border || width - 1 - x < border || height - 1 - y < border
}

/// The pixel is part of the grid.
pub open spec fn on_grid(width: int, height: int, x: int, y: int) -> bool {
    x % grid_side(width, height) < grid_line_width(width, height) || y % grid_side(width, height)
        < grid_line_width(width, height)
}

/// The pixel lies on a line through the middle, straight or from corner to corner.
pub open spec fn on_cross(width: int, height: int, x: int, y: int) -> bool {
    let line = line_width(width, height);
    let reach = larger(width, height) * line;
    ||| distance(x, width / 2) < line
    ||| distance(y, height / 2) < line
    ||| distance(x * height, y * width) < reach
    ||| distance((width - 1 - x) * height, y * width) < reach
}

/// The letters L and R, five cells wide and seven high.
pub open spec fn glyph(left_eye: bool, column: int, row: int) -> bool {
    if left_eye {
        column == 0 || row == 6
    } else if row == 0 || row == 3 {
        column < 4
    } else if row == 4 {
        column == 0 || column == 2
    } else if row == 5 {
        column == 0 || column == 3
    } else {
        column == 0 || column == 4
    }
}

/// Side of a cell of a letter.
pub open spec fn cell_side(width: int, height: int) -> int {
    larger(smaller(width, height) / 24, 12)
}

/// The pixel is part of the letter that names the eye. Between two cells there are two pixels.
pub open spec fn on_label(width: int, height: int, left_eye: bool, x: int, y: int) -> bool {
    let cell = cell_side(width, height);
    let dx = x - width / 10;
    let dy = y - height / 10;
    &&& 0 <= dx < 5 * cell
    &&& 0 <= dy < 7 * cell
    &&& dx % cell < cell - 2
    &&& dy % cell < cell - 2
    &&& glyph(left_eye, dx / cell, dy / cell)
}

/// A colour channel as the squares, the frame and the grid leave it.
pub open spec fn channel(base: int, bright: bool, border: bool, grid: bool) -> int {
    let squared = if bright {
        saturated(base + 26)
    } else {
        base
    };
    let framed = if border {
        255
    } else {
        squared
    };
    if grid {
        saturated(framed - 70)
    } else {
        framed
    }
}

/// A pixel of the picture.
pub open spec fn pattern_pixel(width: int, height: int, left_eye: bool, x: int, y: int) -> Seq<u8> {
    let (red, green, blue) = ramp(width, height, left_eye, x, y);
    let bright = bright_square(width, height, x, y);
    let border = on_border(width, height, border_width(width, height), x, y);
    let grid = on_grid(width, height, x, y);
    if on_cross(width, height, x, y) || on_label(width, height, left_eye, x, y) {
        seq![255u8, 255, 255, 255]
    } else {
        seq![
            channel(red, bright, border, grid) as u8,
            channel(green, bright, border, grid) as u8,
            channel(blue, bright, border, grid) as u8,
            255,
        ]
    }
}

/// The picture of an eye.
pub open spec fn pattern(width: nat, height: nat, left_eye: bool) -> Seq<u8> {
    flatten4(
        raster(
            width,
            height,
            |x: int, y: int| pattern_pixel(width as int, height as int, left_eye, x, y),
        ),
    )
}

fn glyph_cell(left_eye: bool, column: u64, row: u64) -> (filled: bool)
    ensures
        filled == glyph(left_eye, column as int, row as int),
{
    if left_eye {
        column == 0 || row == 6
    } else if row == 0 || row == 3 {
        column < 4
    } else if row == 4 {
        column == 0 || column == 2
    } else if row == 5 {
        column == 0 || column == 3
    } else {
        column == 0 || column == 4
    }
}

/// Whether a pixel is part of the letter that names the eye.
fn draw_eye_label(width: u64, height: u64, left_eye: bool, x: u64, y: u64) -> (filled: bool)
    requires
        1 <= width <= 0x7fff_ffff,
        1 <= height <= 0x7fff_ffff,
        x < width,
        y < height,
    ensures
        filled == on_label(width as int, height as int, left_eye, x as int, y as int),
{
    let cell: u64 = max_of(min_of(width, height) / 24, 12);
    let origin_x: u64 = width / 10;
    let origin_y: u64 = height / 10;
    if x < origin_x || y < origin_y {
        return false;
    }
    let dx: u64 = x - origin_x;
    let dy: u64 = y - origin_y;
    dx < 5 * cell && dy < 7 * cell && dx % cell < cell - 2 && dy % cell < cell - 2 && glyph_cell(
        left_eye,
        dx / cell,
        dy / cell,
    )
}

/// Whether a pixel lies on a line through the middle.
fn crosses(width: u64, height: u64, x: u64, y: u64) -> (crosses: bool)
    requires
        1 <= width <= 0x7fff_ffff,
        1 <= height <= 0x7fff_ffff,
        x < width,
        y < height,
    ensures
        crosses == on_cross(width as int, height as int, x as int, y as int),
{
    let line: u64 = max_of(min_of(width, height) / 180, 2);
    let longest: u64 = max_of(width, height);
    assert(longest * line <= 0x7fff_ffff * 0x7fff_ffff) by (nonlinear_arith)
        requires
            longest <= 0x7fff_ffff,
            line <= 0x7fff_ffff,
    ;
    assert(x * height <= 0x7fff_ffff * 0x7fff_ffff && y * width <= 0x7fff_ffff * 0x7fff_ffff && (
    width - 1 - x) * height <= 0x7fff_ffff * 0x7fff_ffff) by (nonlinear_arith)
        requires
            x < width <= 0x7fff_ffff,
            y < height <= 0x7fff_ffff,
    ;
    assert(0 <= (width - 1 - x) * height) by (nonlinear_arith)
        requires
            x < width,
    ;
    let reach: u64 = longest * line;
    let across: u64 = y * width;
    distance_of(x, width / 2) < line || distance_of(y, height / 2) < line || distance_of(
        x * height,
        across,
    ) < reach || distance_of((width - 1 - x) * height, across) < reach
}

fn add_up(value: u8, amount: u64) -> (sum: u8)
    requires
        amount <= 255,
    ensures
        sum == saturated(value + amount),
{
    let sum: u64 = value as u64 + amount;
    if sum > 255 {
        255
    } else {
        sum as u8
    }
}

fn finish_channel(base: u8, bright: bool, border: bool, grid: bool) -> (result: u8)
    ensures
        result == channel(base as int, bright, border, grid),
{
    let squared: u8 = if bright {
        add_up(base, 26)
    } else {
        base
    };
    let framed: u8 = if border {
        255
    } else {
        squared
    };
    if grid {
        if framed < 70 {
            0
        } else {
            framed - 70
        }
    } else {
        framed
    }
}

fn progress_of(position: u64, length: u64) -> (result: u64)
    requires
        position < length <= 0x7fff_ffff,
    ensures
        result == progress(position as int, length as int),
        result <= 255,
{
    let steps: u64 = max_of(length - 1, 1);
    assert(position * 255 / (steps as int) <= 255) by (nonlinear_arith)
        requires
            0 <= position <= steps,
            0 < steps,
    ;
    position * 255 / steps
}

/// Computes a pixel of the picture: red, green and blue. It is always opaque.
fn make_pattern_pixel(width: u64, height: u64, left_eye: bool, x: u64, y: u64) -> (pixel: (
    u8,
    u8,
    u8,
))
    requires
        1 <= width <= 0x7fff_ffff,
        1 <= height <= 0x7fff_ffff,
        x < width,
        y < height,
    ensures
        pattern_pixel(width as int, height as int, left_eye, x as int, y as int) == seq![
            pixel.0,
            pixel.1,
            pixel.2,
            255u8,
        ],
{
    if crosses(width, height, x, y) || draw_eye_label(width, height, left_eye, x, y) {
        return (255, 255, 255);
    }
    let shortest: u64 = min_of(width, height);
    let border_thickness: u64 = max_of(shortest / 80, 6);
    let grid: u64 = max_of(shortest / 12, 96);
    let grid_line: u64 = max_of(shortest / 360, 2);
    let u: u64 = progress_of(x, width);
    let v: u64 = progress_of(y, height);
    let (red, green, blue): (u8, u8, u8) = if left_eye {
        (add_up(180, u / 4), add_up(70, v / 5), 28)
    } else {
        (24, add_up(130, v / 5), add_up(180, u / 4))
    };
    let bright: bool = (x / grid) % 2 != (y / grid) % 2;
    let border: bool = x < border_thickness || y < border_thickness || width - 1 - x
        < border_thickness || height - 1 - y < border_thickness;
    let on_line: bool = x % grid < grid_line || y % grid < grid_line;
    (
        finish_channel(red, bright, border, on_line),
        finish_channel(green, bright, border, on_line),
        finish_channel(blue, bright, border, on_line),
    )
}

/// Draws the picture of an eye: four bytes for each pixel, row by row. Sides count as at least
/// one pixel.
pub fn make_diagnostic_eye_pattern(width: i32, height: i32, left_eye: bool) -> (pixels: Vec<u8>)
    requires
        4 * (side(width) * side(height)) <= usize::MAX,
    ensures
        pixels@ == pattern(side(width), side(height), left_eye),
{
    let columns: u64 = at_least_one(width);
    let rows: u64 = at_least_one(height);
    let ghost w = side(width);
    let ghost h = side(height);
    let ghost at = |x: int, y: int| pattern_pixel(w as int, h as int, left_eye, x, y);
    let ghost picture = raster(w, h, at);
    let ghost bytes = flatten4(picture);
    let mut pixels: Vec<u8> = Vec::new();
    let mut y: u64 = 0;
    let ghost mut done: int = 0;
    while y < rows
        invariant
            y <= rows,
            columns == w,
            rows == h,
            1 <= columns <= 0x7fff_ffff,
            1 <= rows <= 0x7fff_ffff,
            at == (|x: int, y: int| pattern_pixel(w as int, h as int, left_eye, x, y)),
            picture == raster(w, h, at),
            bytes == flatten4(picture),
            done == y * w,
            0 <= done <= picture.len(),
            pixels@ =~= bytes.take(4 * done),
        decreases rows - y,
    {
        let mut x: u64 = 0;
        while x < columns
            invariant
                y < rows,
                x <= columns,
                columns == w,
                rows == h,
                1 <= columns <= 0x7fff_ffff,
                1 <= rows <= 0x7fff_ffff,
                at == (|x: int, y: int| pattern_pixel(w as int, h as int, left_eye, x, y)),
                picture == raster(w, h, at),
                bytes == flatten4(picture),
                done == y * w + x,
                0 <= done <= picture.len(),
                pixels@ =~= bytes.take(4 * done),
            decreases columns - x,
        {
            let (red, green, blue): (u8, u8, u8) = make_pattern_pixel(
                columns,
                rows,
                left_eye,
                x,
                y,
            );
            pixels.push(red);
            pixels.push(green);
            pixels.push(blue);
            pixels.push(255);
            proof {
                lemma_raster_push(w, h, at, x as int, y as int);
                let pixel = picture[done];
                assert(pixel == seq![red, green, blue, 255u8]);
                assert(bytes[4 * done] == pixel[0]);
                assert(bytes[4 * done + 1] == pixel[1]);
                assert(bytes[4 * done + 2] == pixel[2]);
                assert(bytes[4 * done + 3] == pixel[3]);
                done = done + 1;
            }
            x = x + 1;
        }
        proof {
            lemma_next_row(w, y as int);
        }
        y = y + 1;
    }
    proof {
        assert(h * w == w * h) by (nonlinear_arith);
        assert(bytes.take(4 * done) =~= bytes);
    }
    pixels
}

// ---------------------------------------------------------------------------
// The marker
// ---------------------------------------------------------------------------

/// A rectangle of a texture.
#[derive(Clone, Copy, Debug, PartialEq, Eq, Structural)]
pub struct TextureRect {
    pub x: i32,
    pub y: i32,
    pub width: i32,
    pub height: i32,
}

/// Side of the marker: an eighth of the shorter side, but neither tiny nor huge.
pub open spec fn marker_side(width: int, height: int) -> int {
    let shortest = smaller(width, height);
    let eighth = if shortest < 0 {
        -((-shortest) / 8)
    } else {
        shortest / 8
    };
    if eighth < 96 {
        96
    } else if eighth > 320 {
        320
    } else {
        eighth
    }
}

/// Frames that the marker takes from one end to the other and back.
pub const MARKER_PERIOD: i32 = 180;

/// How far the marker is on its way, from 0 to half a period: it turns round at either end.
pub open spec fn bounce(step: int) -> int {
    let phase = step % MARKER_PERIOD as int;
    if phase <= 90 {
        phase
    } else {
        180 - phase
    }
}

/// Half of a number, rounded towards zero.
pub open spec fn half(number: int) -> int {
    if number < 0 {
        -((-number) / 2)
    } else {
        number / 2
    }
}

/// Where the marker is in a frame. It moves half as fast up and down as it does sideways.
pub open spec fn marker_rect(frame_index: i32, width: i32, height: i32) -> TextureRect {
    let size = marker_side(width as int, height as int);
    TextureRect {
        x: (bounce(frame_index as int) * larger(width - size, 0) / 90) as i32,
        y: (bounce(half(frame_index as int)) * larger(height - size, 0) / 90) as i32,
        width: size as i32,
        height: size as i32,
    }
}

fn bounce_of(step: i64) -> (result: i64)
    requires
        -0x8000_0000 <= step <= 0x7fff_ffff,
    ensures
        result == bounce(step as int),
        0 <= result <= 90,
{
    let phase: u64 = if step < 0 {
        let past: u64 = ((-step) as u64) % 180;
        if past == 0 {
            0
        } else {
            180 - past
        }
    } else {
        (step as u64) % 180
    };
    assert(phase == step % 180) by {
        if step < 0 {
            let past = (-step) % 180;
            let turns = (-step) / 180;
            assert(-step == 180 * turns + past);
            if past == 0 {
                assert(step == 180 * (-turns));
            } else {
                assert(step == 180 * (-turns - 1) + (180 - past));
            }
        }
    }
    if phase <= 90 {
        phase as i64
    } else {
        (180 - phase) as i64
    }
}

fn half_of(number: i64) -> (result: i64)
    requires
        -0x8000_0000 <= number <= 0x7fff_ffff,
    ensures
        result == half(number as int),
        -0x8000_0000 <= result <= 0x7fff_ffff,
{
    if number < 0 {
        -((((-number) as u64) / 2) as i64)
    } else {
        ((number as u64) / 2) as i64
    }
}

fn travel(bounce: i64, room: i64) -> (position: i32)
    requires
        0 <= bounce <= 90,
        0 <= room <= 0x7fff_ffff,
    ensures
        position == bounce * room / 90,
        0 <= position <= room,
{
    assert(0 <= bounce * room <= 90 * room) by (nonlinear_arith)
        requires
            0 <= bounce <= 90,
            0 <= room,
    ;
    (((bounce * room) as u64) / 90) as i32
}

fn room_beside(length: i32, size: i64) -> (room: i64)
    requires
        96 <= size <= 320,
    ensures
        room == larger(length - size, 0),
        0 <= room <= 0x7fff_ffff,
{
    let rest: i64 = length as i64 - size;
    if rest < 0 {
        0
    } else {
        rest
    }
}

/// Where the marker is in a frame.
pub fn diagnostic_marker_rect(frame_index: i32, width: i32, height: i32) -> (rect: TextureRect)
    ensures
        rect == marker_rect(frame_index, width, height),
{
    let shortest: i32 = if width < height {
        width
    } else {
        height
    };
    let eighth: i64 = if shortest < 768 {
        96
    } else {
        ((shortest as u64) / 8) as i64
    };
    let size: i64 = if eighth > 320 {
        320
    } else {
        eighth
    };
    assert(size == marker_side(width as int, height as int));
    let sideways: i64 = bounce_of(frame_index as i64);
    let upright: i64 = bounce_of(half_of(frame_index as i64));
    TextureRect {
        x: travel(sideways, room_beside(width, size)),
        y: travel(upright, room_beside(height, size)),
        width: size as i32,
        height: size as i32,
    }
}

/// On a texture that is at least as large as the smallest marker, the marker lies inside it in
/// every frame.
pub proof fn law_marker_stays_inside(frame_index: i32, width: i32, height: i32)
    requires
        width >= 96,
        height >= 96,
    ensures
        ({
            let rect = marker_rect(frame_index, width, height);
            &&& rect.x >= 0
            &&& rect.y >= 0
            &&& rect.x + rect.width <= width
            &&& rect.y + rect.height <= height
        }),
{
    let size = marker_side(width as int, height as int);
    let sideways = bounce(frame_index as int);
    let upright = bounce(half(frame_index as int));
    assert(0 <= sideways * (width - size) <= 90 * (width - size)) by (nonlinear_arith)
        requires
            0 <= sideways <= 90,
            width >= size,
    ;
    assert(0 <= upright * (height - size) <= 90 * (height - size)) by (nonlinear_arith)
        requires
            0 <= upright <= 90,
            height >= size,
    ;
}

/// Why a rectangle could not be cut out of a texture.
#[derive(Clone, Copy, Debug, PartialEq, Eq, Structural)]
pub enum RectError {
    BaseTooSmall { got: usize, expected: usize },
    OutOfBounds {
        width: u64,
        height: u64,
        x: u64,
        y: u64,
        texture_width: u64,
        texture_height: u64,
    },
}

impl RectError {
    /// The error in words.
    pub open spec fn message(self) -> Seq<char> {
        match self {
            RectError::BaseTooSmall { got, expected } => "diagnostic base texture too small: got "@
                + decimal(got as nat) + " bytes, expected at least "@ + decimal(expected as nat),
            RectError::OutOfBounds {
                width,
                height,
                x,
                y,
                texture_width,
                texture_height,
            } => "diagnostic texture rect out of bounds: rect="@ + decimal(width as nat) + "x"@
                + decimal(height as nat) + "+"@ + decimal(x as nat) + ","@ + decimal(y as nat)
                + " texture="@ + decimal(texture_width as nat) + "x"@ + decimal(
                texture_height as nat,
            ),
        }
    }

    /// Writes the error in words.
    pub fn text(&self) -> (text: String)
        ensures
            text@ == self.message(),
    {
        match self {
            RectError::BaseTooSmall { got, expected } => {
                let mut text: String = "diagnostic base texture too small: got ".to_owned();
                let got_text: String = format_decimal(*got as u128);
                text.append(got_text.as_str());
                text.append(" bytes, expected at least ");
                let expected_text: String = format_decimal(*expected as u128);
                text.append(expected_text.as_str());
                text
            },
            RectError::OutOfBounds { width, height, x, y, texture_width, texture_height } => {
                let mut text: String = "diagnostic texture rect out of bounds: rect=".to_owned();
                let width_text: String = format_decimal(*width as u128);
                text.append(width_text.as_str());
                text.append("x");
                let height_text: String = format_decimal(*height as u128);
                text.append(height_text.as_str());
                text.append("+");
                let x_text: String = format_decimal(*x as u128);
                text.append(x_text.as_str());
                text.append(",");
                let y_text: String = format_decimal(*y as u128);
                text.append(y_text.as_str());
                text.append(" texture=");
                let texture_width_text: String = format_decimal(*texture_width as u128);
                text.append(texture_width_text.as_str());
                text.append("x");
                let texture_height_text: String = format_decimal(*texture_height as u128);
                text.append(texture_height_text.as_str());
                text
            },
        }
    }
}

/// A position that is not negative.
pub open spec fn position(coordinate: i32) -> nat {
    if coordinate < 0 {
        0
    } else {
        coordinate as nat
    }
}

/// A pixel of a rectangle: the marker's, with a black frame, or else that of the texture below.
pub open spec fn rect_pixel(
    base: Seq<u8>,
    texture_width: int,
    rect: TextureRect,
    marker: Option<Seq<u8>>,
    column: int,
    row: int,
) -> Seq<u8> {
    let width = side(rect.width) as int;
    let height = side(rect.height) as int;
    match marker {
        Some(color) => if on_border(
            width,
            height,
            larger(smaller(width, height) / 10, 4),
            column,
            row,
        ) {
            seq![0u8, 0, 0, 255]
        } else {
            color
        },
        None => {
            let start = 4 * ((position(rect.y) + row) * texture_width + position(rect.x) + column);
            base.subrange(start, start + 4)
        },
    }
}

/// The rectangle lies inside the texture.
pub open spec fn rect_fits(texture_width: i32, texture_height: i32, rect: TextureRect) -> bool {
    &&& position(rect.x) + side(rect.width) <= side(texture_width)
    &&& position(rect.y) + side(rect.height) <= side(texture_height)
}

/// The marker's colour as a sequence.
pub open spec fn color_view(color: Option<[u8; 4]>) -> Option<Seq<u8>> {
    match color {
        Some(bytes) => Some(bytes@),
        None => None,
    }
}

/// The four bytes of a pixel in a large enough texture lie inside it.
proof fn lemma_source_pixel(
    length: int,
    texture_width: int,
    texture_height: int,
    x: int,
    y: int,
)
    requires
        0 <= x < texture_width,
        0 <= y < texture_height,
        4 * (texture_width * texture_height) <= length,
    ensures
        0 <= y * texture_width,
        0 <= 4 * (y * texture_width + x),
        4 * (y * texture_width + x) + 4 <= length,
{
    lemma_position_bound(texture_width as nat, texture_height as nat, x, y);
    assert(0 <= y * texture_width) by (nonlinear_arith)
        requires
            0 <= y,
            0 <= texture_width,
    ;
}

/// Cuts a rectangle out of a texture, or draws the marker in its place.
pub fn make_texture_rect_from_base(
    base_pixels: &[u8],
    texture_width: i32,
    texture_height: i32,
    rect: TextureRect,
    marker_color: Option<[u8; 4]>,
) -> (result: Result<Vec<u8>, RectError>)
    ensures
        ({
            let needed = 4 * (side(texture_width) * side(texture_height));
            match result {
                Ok(pixels) => {
                    &&& base_pixels@.len() >= needed
                    &&& rect_fits(texture_width, texture_height, rect)
                    &&& pixels@ == flatten4(
                        raster(
                            side(rect.width),
                            side(rect.height),
                            |column: int, row: int|
                                rect_pixel(
                                    base_pixels@,
                                    side(texture_width) as int,
                                    rect,
                                    color_view(marker_color),
                                    column,
                                    row,
                                ),
                        ),
                    )
                },
                Err(RectError::BaseTooSmall { got, expected }) => {
                    &&& base_pixels@.len() < needed
                    &&& got == base_pixels@.len()
                    &&& expected == smaller(needed as int, usize::MAX as int)
                },
                Err(
                    RectError::OutOfBounds {
                        width,
                        height,
                        x,
                        y,
                        texture_width: shown_width,
                        texture_height: shown_height,
                    },
                ) => {
                    &&& base_pixels@.len() >= needed
                    &&& !rect_fits(texture_width, texture_height, rect)
                    &&& width == side(rect.width)
                    &&& height == side(rect.height)
                    &&& x == position(rect.x)
                    &&& y == position(rect.y)
                    &&& shown_width == side(texture_width)
                    &&& shown_height == side(texture_height)
                },
            }
        }),
{
    let columns: u64 = at_least_one(texture_width);
    let rows: u64 = at_least_one(texture_height);
    let x: u64 = if rect.x < 0 {
        0
    } else {
        rect.x as u64
    };
    let y: u64 = if rect.y < 0 {
        0
    } else {
        rect.y as u64
    };
    let width: u64 = at_least_one(rect.width);
    let height: u64 = at_least_one(rect.height);
    assert(0 <= columns * rows <= 0x7fff_ffff * 0x7fff_ffff) by (nonlinear_arith)
        requires
            0 <= columns <= 0x7fff_ffff,
            0 <= rows <= 0x7fff_ffff,
    ;
    let needed: u128 = 4 * (columns * rows) as u128;
    let length: usize = base_pixels.len();
    if (length as u128) < needed {
        let expected: usize = if needed > usize::MAX as u128 {
            usize::MAX
        } else {
            needed as usize
        };
        return Err(RectError::BaseTooSmall { got: length, expected });
    }
    if x + width > columns || y + height > rows {
        return Err(
            RectError::OutOfBounds {
                width,
                height,
                x,
                y,
                texture_width: columns,
                texture_height: rows,
            },
        );
    }
    let ghost w = side(rect.width);
    let ghost h = side(rect.height);
    let ghost color = color_view(marker_color);
    let ghost at = |column: int, row: int|
        rect_pixel(base_pixels@, columns as int, rect, color, column, row);
    let ghost picture = raster(w, h, at);
    let ghost bytes = flatten4(picture);
    let border: u64 = max_of(min_of(width, height) / 10, 4);
    let mut pixels: Vec<u8> = Vec::new();
    let mut row: u64 = 0;
    let ghost mut done: int = 0;
    while row < height
        invariant
            row <= height,
            width == w,
            height == h,
            w == side(rect.width),
            h == side(rect.height),
            x == position(rect.x),
            y == position(rect.y),
            x + width <= columns,
            y + height <= rows,
            columns <= 0x7fff_ffff,
            rows <= 0x7fff_ffff,
            length == base_pixels@.len(),
            4 * (columns * rows) <= length,
            border == larger(smaller(w as int, h as int) / 10, 4),
            color == color_view(marker_color),
            at == (|column: int, row: int|
                rect_pixel(base_pixels@, columns as int, rect, color, column, row)),
            picture == raster(w, h, at),
            bytes == flatten4(picture),
            done == row * w,
            0 <= done <= picture.len(),
            pixels@ =~= bytes.take(4 * done),
        decreases height - row,
    {
        let mut column: u64 = 0;
        while column < width
            invariant
                row < height,
                column <= width,
                width == w,
                height == h,
                w == side(rect.width),
                h == side(rect.height),
                x == position(rect.x),
                y == position(rect.y),
                x + width <= columns,
                y + height <= rows,
                columns <= 0x7fff_ffff,
                rows <= 0x7fff_ffff,
                length == base_pixels@.len(),
                4 * (columns * rows) <= length,
                border == larger(smaller(w as int, h as int) / 10, 4),
                color == color_view(marker_color),
                at == (|column: int, row: int|
                    rect_pixel(base_pixels@, columns as int, rect, color, column, row)),
                picture == raster(w, h, at),
                bytes == flatten4(picture),
                done == row * w + column,
                0 <= done <= picture.len(),
                pixels@ =~= bytes.take(4 * done),
            decreases width - column,
        {
            let ghost wanted = rect_pixel(
                base_pixels@,
                columns as int,
                rect,
                color,
                column as int,
                row as int,
            );
            let pixel: [u8; 4] = match marker_color {
                Some(bytes) => {
                    if column < border || row < border || width - 1 - column < border || height - 1
                        - row < border {
                        [0, 0, 0, 255]
                    } else {
                        bytes
                    }
                },
                None => {
                    proof {
                        lemma_source_pixel(
                            length as int,
                            columns as int,
                            rows as int,
                            x + column,
                            y + row,
                        );
                    }
                    let start: usize = 4 * ((y + row) * columns + x + column) as usize;
                    [
                        base_pixels[start],
                        base_pixels[start + 1],
                        base_pixels[start + 2],
                        base_pixels[start + 3],
                    ]
                },
            };
            assert(pixel@ =~= wanted);
            pixels.push(pixel[0]);
            pixels.push(pixel[1]);
            pixels.push(pixel[2]);
            pixels.push(pixel[3]);
            proof {
                lemma_raster_push(w, h, at, column as int, row as int);
                assert(picture[done] == wanted);
                assert(bytes[4 * done] == wanted[0]);
                assert(bytes[4 * done + 1] == wanted[1]);
                assert(bytes[4 * done + 2] == wanted[2]);
                assert(bytes[4 * done + 3] == wanted[3]);
                done = done + 1;
            }
            column = column + 1;
        }
        proof {
            lemma_next_row(w, row as int);
        }
        row = row + 1;
    }
    proof {
        assert(h * w == w * h) by (nonlinear_arith);
        assert(bytes.take(4 * done) =~= bytes);
    }
    Ok(pixels)
}

/// Number of pairs of eye textures that take turns.
pub const PIMAX_EYE_BUFFER_PAIR_COUNT: usize = 4;

/// Where the marker was drawn last, for each pair of textures.
#[derive(Clone, Copy, Debug, PartialEq, Eq)]
pub struct MarkerPositions {
    pub last_rects: [Option<TextureRect>; PIMAX_EYE_BUFFER_PAIR_COUNT],
}

/// A rectangle to upload to the texture of an eye: the picture below, or the marker.
#[derive(Clone, Copy, Debug, PartialEq, Eq)]
pub struct MarkerUpload {
    pub left_eye: bool,
    pub rect: TextureRect,
    pub color: Option<[u8; 4]>,
}

/// The uploads that move the marker: first the picture is restored where the marker was in this
/// pair of textures, then the marker is drawn where it is now, green on the left and pink on the
/// right.
pub open spec fn marker_uploads(previous: Option<TextureRect>, rect: TextureRect) -> Seq<
    (bool, TextureRect, Option<Seq<u8>>),
> {
    let restored = match previous {
        Some(last) => seq![(true, last, None), (false, last, None)],
        None => Seq::empty(),
    };
    restored + seq![
        (true, rect, Some(seq![32u8, 255, 96, 255])),
        (false, rect, Some(seq![255u8, 64, 220, 255])),
    ]
}

/// An upload as a triple.
pub open spec fn upload_view(upload: MarkerUpload) -> (bool, TextureRect, Option<Seq<u8>>) {
    (upload.left_eye, upload.rect, color_view(upload.color))
}

impl MarkerPositions {
    /// Before the marker was drawn.
    pub fn new() -> (positions: Self)
        ensures
            forall|slot: int|
                0 <= slot < PIMAX_EYE_BUFFER_PAIR_COUNT
                    ==> (#[trigger] positions.last_rects@[slot]) is None,
    {
        MarkerPositions { last_rects: [None, None, None, None] }
    }

    /// Plans how the marker moves to its place in a frame.
    pub fn update_diagnostic_pattern_marker(
        &self,
        slot: usize,
        frame_index: i32,
        width: i32,
        height: i32,
    ) -> (uploads: Vec<MarkerUpload>)
        requires
            slot < PIMAX_EYE_BUFFER_PAIR_COUNT,
        ensures
            uploads@.map_values(|upload: MarkerUpload| upload_view(upload)) == marker_uploads(
                self.last_rects@[slot as int],
                marker_rect(frame_index, width, height),
            ),
    {
        let rect = diagnostic_marker_rect(frame_index, width, height);
        let mut uploads: Vec<MarkerUpload> = Vec::new();
        if let Some(last) = self.last_rects[slot] {
            uploads.push(MarkerUpload { left_eye: true, rect: last, color: None });
            uploads.push(MarkerUpload { left_eye: false, rect: last, color: None });
        }
        let green: [u8; 4] = [32, 255, 96, 255];
        let pink: [u8; 4] = [255, 64, 220, 255];
        assert(green@ =~= seq![32u8, 255, 96, 255]);
        assert(pink@ =~= seq![255u8, 64, 220, 255]);
        uploads.push(MarkerUpload { left_eye: true, rect, color: Some(green) });
        uploads.push(MarkerUpload { left_eye: false, rect, color: Some(pink) });
        assert(uploads@.map_values(|upload: MarkerUpload| upload_view(upload)) =~= marker_uploads(
            self.last_rects@[slot as int],
            marker_rect(frame_index, width, height),
        ));
        uploads
    }

    /// Notes that the uploads of a frame are done.
    pub fn marker_drawn(&mut self, slot: usize, frame_index: i32, width: i32, height: i32)
        requires
            slot < PIMAX_EYE_BUFFER_PAIR_COUNT,
        ensures
            final(self).last_rects@ == old(self).last_rects@.update(
                slot as int,
                Some(marker_rect(frame_index, width, height)),
            ),
    {
        self.last_rects[slot] = Some(diagnostic_marker_rect(frame_index, width, height));
    }
}

/// Whether a frame is worth a line in the log: the first five, then one in 120.
pub fn logs_frame(frame_index: i32) -> (logs: bool)
    ensures
        logs == (frame_index < 5 || frame_index % 120 == 0),
{
    frame_index < 5 || (frame_index as u32) % 120 == 0
}

/// Where a sample of a texture is taken: `step` tenths along a side.
pub fn sample_position(length: i32, step: i32) -> (position: i32)
    requires
        0 <= step <= 10,
    ensures
        position == (side(length) - 1) * step / 10,
{
    let last: u64 = at_least_one(length) - 1;
    assert(0 <= last * step <= 10 * last) by (nonlinear_arith)
        requires
            0 <= step <= 10,
            0 <= last,
    ;
    ((last * step as u64) / 10) as i32
}

// ---------------------------------------------------------------------------
// Laws
// ---------------------------------------------------------------------------

/// The picture is row-major and opaque: the four bytes of pixel `(x, y)` are its red, green and
/// blue, and full opacity.
pub proof fn law_pictures_are_row_major(
    width: nat,
    height: nat,
    left_eye: bool,
    x: int,
    y: int,
    channel: int,
)
    requires
        0 <= x < width,
        0 <= y < height,
        0 <= channel < 4,
    ensures
        pattern(width, height, left_eye).len() == 4 * (width * height),
        pattern(width, height, left_eye)[4 * (y * width + x) + channel] == pattern_pixel(
            width as int,
            height as int,
            left_eye,
            x,
            y,
        )[channel],
        pattern(width, height, left_eye)[4 * (y * width + x) + 3] == 255,
{
    let at = |x: int, y: int| pattern_pixel(width as int, height as int, left_eye, x, y);
    let pixels = raster(width, height, at);
    lemma_raster_push(width, height, at, x, y);
    lemma_position_bound(width, height, x, y);
    let i = y * width + x;
    assert((4 * i + channel) / 4 == i && (4 * i + channel) % 4 == channel);
    assert((4 * i + 3) / 4 == i && (4 * i + 3) % 4 == 3);
    assert(pattern(width, height, left_eye) == flatten4(pixels));
}

/// White lines run through the middle, upright and level, and from corner to corner, and the
/// letter of the eye is white.
pub proof fn law_lines_and_letters_are_white(
    width: int,
    height: int,
    left_eye: bool,
    x: int,
    y: int,
)
    requires
        0 <= x < width,
        0 <= y < height,
    ensures
        x == width / 2 || y == height / 2 || x * height == y * width || (width - 1 - x) * height
            == y * width || on_label(width, height, left_eye, x, y) ==> pattern_pixel(
            width,
            height,
            left_eye,
            x,
            y,
        ) == seq![255u8, 255, 255, 255],
{
    let line = line_width(width, height);
    let longest = larger(width, height);
    assert(longest * line > 0) by (nonlinear_arith)
        requires
            longest > 0,
            line > 0,
    ;
}

/// The eyes have colours of their own. Away from every line the left eye's picture is red, more so
/// to the right, with a little green that grows downwards; the right eye's is blue, more so to the
/// right, with more green that grows downwards. Every second square is brighter.
pub proof fn law_eyes_have_their_own_colours(width: int, height: int, x: int, y: int)
    requires
        1 < width,
        1 < height,
        0 <= x < width,
        0 <= y < height,
        !on_cross(width, height, x, y),
        !on_border(width, height, border_width(width, height), x, y),
        !on_grid(width, height, x, y),
    ensures
        ({
            let across = x * 255 / (width - 1) / 4;
            let down = y * 255 / (height - 1) / 5;
            let brighter: int = if bright_square(width, height, x, y) {
                26
            } else {
                0
            };
            let cut = |value: int|
                if value > 255 {
                    255
                } else {
                    value
                };
            let left = pattern_pixel(width, height, true, x, y);
            let right = pattern_pixel(width, height, false, x, y);
            &&& !on_label(width, height, true, x, y) ==> {
                &&& left[0] == cut(180 + across + brighter)
                &&& left[1] == cut(70 + down + brighter)
                &&& left[2] == 28 + brighter
            }
            &&& !on_label(width, height, false, x, y) ==> {
                &&& right[0] == 24 + brighter
                &&& right[1] == cut(130 + down + brighter)
                &&& right[2] == cut(180 + across + brighter)
            }
        }),
{
    assert(0 <= x * 255 / (width - 1) <= 255) by (nonlinear_arith)
        requires
            0 <= x <= width - 1,
            0 < width - 1,
    ;
    assert(0 <= y * 255 / (height - 1) <= 255) by (nonlinear_arith)
        requires
            0 <= y <= height - 1,
            0 < height - 1,
    ;
}

/// The squares of the grid alternate in both directions, and the frame reaches at least six pixels
/// in from every side.
pub proof fn law_squares_alternate(width: int, height: int, x: int, y: int)
    requires
        0 <= x < width,
        0 <= y < height,
    ensures
        bright_square(width, height, x + grid_side(width, height), y) != bright_square(
            width,
            height,
            x,
            y,
        ),
        bright_square(width, height, x, y + grid_side(width, height)) != bright_square(
            width,
            height,
            x,
            y,
        ),
        x < 6 || y < 6 || x > width - 7 || y > height - 7 ==> on_border(
            width,
            height,
            border_width(width, height),
            x,
            y,
        ),
        grid_side(width, height) >= 96,
{
    let side = grid_side(width, height);
    assert((x + side) / side == x / side + 1) by (nonlinear_arith)
        requires
            side > 0,
            x >= 0,
    ;
    assert((y + side) / side == y / side + 1) by (nonlinear_arith)
        requires
            side > 0,
            y >= 0,
    ;
}

/// The letters are an L and an R: cell by cell, from the top row to the bottom.
pub proof fn law_letters_name_the_eyes(column: int, row: int)
    requires
        0 <= column < 5,
        0 <= row < 7,
    ensures
        glyph(true, column, row) == seq![
            seq![true, false, false, false, false],
            seq![true, false, false, false, false],
            seq![true, false, false, false, false],
            seq![true, false, false, false, false],
            seq![true, false, false, false, false],
            seq![true, false, false, false, false],
            seq![true, true, true, true, true],
        ][row][column],
        glyph(false, column, row) == seq![
            seq![true, true, true, true, false],
            seq![true, false, false, false, true],
            seq![true, false, false, false, true],
            seq![true, true, true, true, false],
            seq![true, false, true, false, false],
            seq![true, false, false, true, false],
            seq![true, false, false, false, true],
        ][row][column],
{
}

/// The marker is square, an eighth of the shorter side between 96 and 320 pixels.
pub proof fn law_marker_is_square(frame_index: i32, width: i32, height: i32)
    requires
        width >= 1,
        height >= 1,
    ensures
        ({
            let rect = marker_rect(frame_index, width, height);
            let shorter = if width < height {
                width as int
            } else {
                height as int
            };
            &&& rect.width == rect.height
            &&& shorter < 776 ==> rect.width == 96
            &&& 768 <= shorter <= 2560 ==> rect.width == shorter / 8
            &&& shorter > 2560 ==> rect.width == 320
        }),
{
}

/// The marker runs from the left edge to the right one in ninety frames and back in as many, and
/// takes twice as long from the upper edge to the lower one and back.
pub proof fn law_marker_runs_to_and_fro(turn: int, step: int)
    requires
        0 <= step <= 90,
    ensures
        bounce(180 * turn + step) == step,
        bounce(180 * turn + 180 - step) == step,
        half(2 * step) == step,
        half(2 * step + 1) == step,
{
    assert((180 * turn + step) % 180 == step) by (nonlinear_arith)
        requires
            0 <= step < 180,
    ;
    if step > 0 {
        assert((180 * turn + (180 - step)) % 180 == 180 - step) by (nonlinear_arith)
            requires
                0 <= 180 - step < 180,
        ;
    } else {
        assert((180 * turn + 180) % 180 == 0) by (nonlinear_arith);
    }
}

/// At the turning points the marker touches the edges: it starts in the upper left corner, touches
/// the right edge after ninety frames, and is back at the left and at the lower edge after 180.
pub proof fn law_marker_touches_the_edges(width: i32, height: i32)
    requires
        width >= 320,
        height >= 320,
    ensures
        marker_rect(0, width, height).x == 0 && marker_rect(0, width, height).y == 0,
        marker_rect(90, width, height).x + marker_rect(90, width, height).width == width,
        marker_rect(180, width, height).x == 0,
        marker_rect(180, width, height).y + marker_rect(180, width, height).height == height,
{
    law_marker_runs_to_and_fro(0, 0);
    law_marker_runs_to_and_fro(0, 90);
    let size = marker_side(width as int, height as int);
    assert(90 * (width - size) / 90 == width - size);
    assert(90 * (height - size) / 90 == height - size);
    assert(half(180) == 90 && half(0) == 0);
}

/// A marker is its colour inside a black frame; without a marker a rectangle is what the texture
/// holds in its place, each pixel with its four bytes in order.
pub proof fn law_rectangles_show_the_marker_or_the_texture(
    base: Seq<u8>,
    texture_width: int,
    rect: TextureRect,
    color: Seq<u8>,
    column: int,
    row: int,
    channel: int,
)
    requires
        rect.x >= 0,
        rect.y >= 0,
        rect.width >= 96,
        rect.height == rect.width,
        rect.width <= 320,
        0 <= column < rect.width,
        0 <= row < rect.height,
        0 <= channel < 4,
    ensures
        ({
            let frame = rect.width as int / 10;
            let inside = frame <= column < rect.width - frame && frame <= row < rect.height - frame;
            let marker = rect_pixel(base, texture_width, rect, Some(color), column, row);
            &&& inside ==> marker == color
            &&& !inside ==> marker == seq![0u8, 0, 0, 255]
        }),
        ({
            let start = 4 * ((rect.y + row) * texture_width + rect.x + column);
            0 <= start && start + 4 <= base.len() ==> rect_pixel(
                base,
                texture_width,
                rect,
                None,
                column,
                row,
            )[channel] == base[start + channel]
        }),
{
}

/// The marker is moved by restoring the picture of both eyes where it was, and drawing it in both
/// eyes where it is: green on the left, pink on the right.
pub proof fn law_marker_is_restored_and_drawn(last: TextureRect, rect: TextureRect)
    ensures
        marker_uploads(None, rect) == seq![
            (true, rect, Some(seq![32u8, 255, 96, 255])),
            (false, rect, Some(seq![255u8, 64, 220, 255])),
        ],
        marker_uploads(Some(last), rect).len() == 4,
        marker_uploads(Some(last), rect)[0] == (true, last, None::<Seq<u8>>),
        marker_uploads(Some(last), rect)[1] == (false, last, None::<Seq<u8>>),
        marker_uploads(Some(last), rect).skip(2) == marker_uploads(None, rect),
{
    assert(marker_uploads(None, rect) =~= seq![
        (true, rect, Some(seq![32u8, 255, 96, 255])),
        (false, rect, Some(seq![255u8, 64, 220, 255])),
    ]);
    assert(marker_uploads(Some(last), rect).skip(2) =~= marker_uploads(None, rect));
}

/// Samples are taken from the first pixel of a side to its last one, in tenths.
pub proof fn law_samples_span_the_side(length: i32, step: i32, position: i32)
    requires
        call_ensures(sample_position, (length, step), position),
        length >= 1,
        0 <= step <= 10,
    ensures
        step == 0 ==> position == 0,
        step == 10 ==> position == length - 1,
        10 * position <= (length - 1) * step < 10 * position + 10,
{
    assert((length - 1) * 10 / 10 == length - 1);
    assert((length - 1) * 0 == 0) by (nonlinear_arith);
    assert((length - 1) * step >= 0) by (nonlinear_arith)
        requires
            length >= 1,
            step >= 0,
    ;
}

/// Where the marker was drawn is remembered for its pair of textures, and for no other. At the
/// start it was drawn nowhere.
pub proof fn law_marker_is_remembered_by_its_pair(
    slot: usize,
    other: int,
    frame_index: i32,
    width: i32,
    height: i32,
    fresh: MarkerPositions,
)
    requires
        slot < 4,
        0 <= other < 4,
        call_ensures(MarkerPositions::new, (), fresh),
    ensures
        fresh.last_rects@[other] is None,
        forall|positions: &mut MarkerPositions| #[trigger]
            call_ensures(
                MarkerPositions::marker_drawn,
                (positions, slot, frame_index, width, height),
                (),
            ) ==> {
                &&& other == slot ==> final(positions).last_rects@[other] == Some(
                    marker_rect(frame_index, width, height),
                )
                &&& other != slot ==> final(positions).last_rects@[other]
                    == (*positions).last_rects@[other]
            },
{
}

/// Lines, frame, squares and letters grow with the shorter side of the picture and have a least
/// size, whichever side is the shorter one.
pub proof fn law_drawings_grow_with_the_picture(width: int, height: int)
    requires
        width > 0,
        height > 0,
    ensures
        ({
            let side = if width < height {
                width
            } else {
                height
            };
            let scaled = |size: int, part: int, least: int|
                {
                    ||| size == least && side < (least + 1) * part
                    ||| size > least && size * part <= side < (size + 1) * part
                };
            &&& scaled(line_width(width, height), 180, 2)
            &&& scaled(border_width(width, height), 80, 6)
            &&& scaled(grid_side(width, height), 12, 96)
            &&& scaled(grid_line_width(width, height), 360, 2)
            &&& scaled(cell_side(width, height), 24, 12)
        }),
{
}

/// The brighter squares are brighter by 26, the frame is white, and the lines of the grid are
/// darker by 70 than what they cross. No colour leaves its range.
pub proof fn law_layers_change_the_colours(base: int, bright: bool, border: bool)
    requires
        0 <= base <= 255,
    ensures
        channel(base, false, false, false) == base,
        channel(base, true, false, false) == if base > 229 {
            255
        } else {
            base + 26
        },
        channel(base, bright, true, false) == 255,
        ({
            let plain = channel(base, bright, border, false);
            channel(base, bright, border, true) == if plain < 70 {
                0
            } else {
                plain - 70
            }
        }),
{
}

/// The frame is as thick on every side.
pub proof fn law_frame_is_even(width: int, height: int, border: int, x: int, y: int)
    requires
        0 <= x < width,
        0 <= y < height,
    ensures
        on_border(width, height, border, x, y) == on_border(width, height, border, width - 1 - x, y),
        on_border(width, height, border, x, y) == on_border(width, height, border, x, height - 1 - y),
        x < border ==> on_border(width, height, border, x, y),
        y < border ==> on_border(width, height, border, x, y),
        border <= x < width - border && border <= y < height - border ==> !on_border(
            width,
            height,
            border,
            x,
            y,
        ),
{
}

/// The squares of the grid begin with a line in both directions.
pub proof fn law_squares_begin_with_a_line(width: int, height: int, x: int, y: int)
    requires
        width > 0,
        height > 0,
        0 <= x < width,
        0 <= y < height,
    ensures
        on_grid(width, height, 0, y) && on_grid(width, height, x, 0),
        on_grid(width, height, 1, y) && on_grid(width, height, x, 1),
        grid_line_width(width, height) <= x < grid_side(width, height) && grid_line_width(
            width,
            height,
        ) <= y < grid_side(width, height) ==> !on_grid(width, height, x, y),
{
    let side = grid_side(width, height);
    let line = grid_line_width(width, height);
    assert(side >= 96 && line >= 2);
    assert(0int % side == 0) by (nonlinear_arith)
        requires
            side >= 96,
    ;
    vstd::arithmetic::div_mod::lemma_small_mod(0, side as nat);
    vstd::arithmetic::div_mod::lemma_small_mod(1, side as nat);
    if x < side {
        vstd::arithmetic::div_mod::lemma_small_mod(x as nat, side as nat);
    }
    if y < side {
        vstd::arithmetic::div_mod::lemma_small_mod(y as nat, side as nat);
    }
}

/// The middle column, the middle row and, in a square picture, both diagonals are drawn.
pub proof fn law_lines_cross_in_the_middle(width: int, height: int, x: int, y: int)
    requires
        width > 0,
        height > 0,
        0 <= x < width,
        0 <= y < height,
    ensures
        on_cross(width, height, width / 2, y),
        on_cross(width, height, x, height / 2),
        on_cross(width, height, width / 2 + 1, y),
        width == height ==> on_cross(width, height, x, x),
        width == height ==> on_cross(width, height, x, width - 1 - x),
{
    assert(line_width(width, height) >= 2);
    let reach = larger(width, height) * line_width(width, height);
    assert(reach > 0) by (nonlinear_arith)
        requires
            reach == larger(width, height) * line_width(width, height),
            larger(width, height) > 0,
            line_width(width, height) >= 2,
    ;
}

/// The test picture of an eye is as large as the texture and opaque, and each of its pixels stands
/// in its place.
pub proof fn law_test_pictures_fill_the_texture(
    width: i32,
    height: i32,
    left_eye: bool,
    pixels: Vec<u8>,
    x: int,
    y: int,
    channel: int,
)
    requires
        call_ensures(make_diagnostic_eye_pattern, (width, height, left_eye), pixels),
        0 <= x < width,
        0 <= y < height,
        0 <= channel < 4,
    ensures
        pixels@.len() == 4 * (width * height),
        pixels@[4 * (y * width + x) + channel] == pattern_pixel(
            width as int,
            height as int,
            left_eye,
            x,
            y,
        )[channel],
        pixels@[4 * (y * width + x) + 3] == 255,
{
    law_pictures_are_row_major(width as nat, height as nat, left_eye, x, y, channel);
}

/// Before the marker is drawn anew, what it covered is restored for both eyes. Then each eye gets
/// the marker in its own colour, at the same place.
pub proof fn law_markers_are_uploaded_for_both_eyes(
    positions: MarkerPositions,
    slot: usize,
    frame_index: i32,
    width: i32,
    height: i32,
    uploads: Vec<MarkerUpload>,
    rect: TextureRect,
)
    requires
        slot < 4,
        call_ensures(
            MarkerPositions::update_diagnostic_pattern_marker,
            (&positions, slot, frame_index, width, height),
            uploads,
        ),
        call_ensures(diagnostic_marker_rect, (frame_index, width, height), rect),
    ensures
        ({
            let drawn: int = if positions.last_rects@[slot as int] is Some {
                2
            } else {
                0
            };
            &&& uploads@.len() == drawn + 2
            &&& uploads@[drawn].left_eye && uploads@[drawn].rect == rect
            &&& uploads@[drawn].color is Some && uploads@[drawn].color->0@ == seq![
                32u8,
                255,
                96,
                255,
            ]
            &&& !uploads@[drawn + 1].left_eye && uploads@[drawn + 1].rect == rect
            &&& uploads@[drawn + 1].color is Some && uploads@[drawn + 1].color->0@ == seq![
                255u8,
                64,
                220,
                255,
            ]
            &&& drawn == 2 ==> {
                &&& uploads@[0].left_eye && uploads@[0].color is None
                &&& !uploads@[1].left_eye && uploads@[1].color is None
                &&& uploads@[0].rect == positions.last_rects@[slot as int]->0
                &&& uploads@[1].rect == positions.last_rects@[slot as int]->0
            }
        }),
{
    let views = uploads@.map_values(|upload: MarkerUpload| upload_view(upload));
    let last = positions.last_rects@[slot as int];
    assert(views.len() == uploads@.len());
    assert(forall|i: int|
        0 <= i < uploads@.len() ==> #[trigger] views[i] == upload_view(uploads@[i]));
    match last {
        Some(last) => {
            law_marker_is_restored_and_drawn(last, rect);
            let all = marker_uploads(Some(last), rect);
            assert(all.skip(2)[0] == all[2] && all.skip(2)[1] == all[3]);
            assert(views[0] == all[0] && views[1] == all[1]);
            assert(views[2] == all[2] && views[3] == all[3]);
        },
        None => {
            law_marker_is_restored_and_drawn(rect, rect);
            assert(views[0] == marker_uploads(None, rect)[0]);
            assert(views[1] == marker_uploads(None, rect)[1]);
        },
    }
}

/// Textures have at least one pixel on either side, and rectangles start inside of them.
pub proof fn law_textures_are_never_empty(value: i32)
    ensures
        value >= 1 ==> side(value) == value,
        value < 1 ==> side(value) == 1,
        value >= 0 ==> position(value) == value,
        value < 0 ==> position(value) == 0,
{
}

} // verus!
