//! How large the rendered picture is: the grid of character cells that an
//! image gets, from its own dimensions, the terminal's and the caller's wishes.
//!
//! A character cell shows two pixels, one above the other, so a grid of
//! `rows` character rows shows up to `2 * rows` pixel rows. A length that
//! follows from another by the image's proportions is worked out in single
//! precision: the ratio of width to height first, then the quotient or the
//! product with it, cut to a whole number.

use vstd::prelude::*;
use crate::single::{
    divide, divided, held, lemma_crossing, lemma_divided_close, lemma_multiplied_close,
    lemma_ratio_positive, multiplied, multiply, ratio, ratio_of,
};

verus! {

/// What the caller asked for. `real_size` overrides the two lengths.
#[derive(Clone, Copy, Debug, PartialEq, Eq)]
pub struct SizeSpec {
    pub width: Option<u32>,
    pub height: Option<u32>,
    pub real_size: bool,
}

/// The terminal's character grid.
#[derive(Clone, Copy, Debug, PartialEq, Eq, Structural)]
pub struct TerminalBounds {
    pub columns: u32,
    pub rows: u32,
}

/// The character grid that a picture is rendered into.
#[derive(Clone, Copy, Debug, PartialEq, Eq, Structural)]
pub struct TargetGrid {
    pub columns: u32,
    pub rows: u32,
}

/// Half of `n`, rounded up.
pub open spec fn half_up(n: int) -> int {
    (n + 1) / 2
}

/// The smaller of two lengths.
pub open spec fn at_most(a: int, b: int) -> int {
    if a <= b {
        a
    } else {
        b
    }
}

/// The pixel rows that go with `columns` columns at the proportions of an
/// image of `image_width` by `image_height`: `columns` divided by the ratio
/// of width to height, cut to a whole number.
pub open spec fn rows_for(columns: nat, image_width: nat, image_height: nat) -> nat {
    held(divided(columns, ratio_of(image_width, image_height)))
}

/// The columns that go with `pixel_rows` pixel rows at the proportions of an
/// image of `image_width` by `image_height`: the ratio of width to height
/// times `pixel_rows`, cut to a whole number.
pub open spec fn columns_for(pixel_rows: nat, image_width: nat, image_height: nat) -> nat {
    held(multiplied(ratio_of(image_width, image_height), pixel_rows))
}

/// The pixels that are to be had for an image of `image_width` by
/// `image_height` on `terminal`: no more columns than the terminal or the
/// image has, no more pixel rows than two for each terminal row or than the
/// image has.
pub open spec fn available(image_width: nat, image_height: nat, terminal: TerminalBounds) -> (
    nat,
    nat,
) {
    (
        at_most(terminal.columns as int, image_width as int) as nat,
        at_most(2 * terminal.rows, image_height as int) as nat,
    )
}

/// The picture, as columns and pixel rows, that an image is fitted to. The
/// full width that is to be had is kept unless the height that goes with it
/// is too tall; then the full height is kept, with the width that goes with
/// it.
pub open spec fn fitted(image_width: nat, image_height: nat, terminal: TerminalBounds) -> (
    nat,
    nat,
) {
    let (columns, pixel_rows) = available(image_width, image_height, terminal);
    let rows_for_columns = rows_for(columns, image_width, image_height);
    let columns_for_rows = columns_for(pixel_rows, image_width, image_height);
    if rows_for_columns > pixel_rows {
        (columns_for_rows, pixel_rows)
    } else {
        (columns, rows_for_columns)
    }
}

/// `columns` by `pixel_rows` has the proportions of `image_width` by
/// `image_height`, as far as whole numbers and rounding allow: one of the
/// two is the exact length that goes with the other, cut to a whole number,
/// or a whole number next to that.
pub open spec fn keeps_aspect(
    image_width: nat,
    image_height: nat,
    columns: nat,
    pixel_rows: nat,
) -> bool {
    ||| pixel_rows * image_width < columns * image_height + image_width && columns * image_height
        < pixel_rows * image_width + 2 * image_width
    ||| columns * image_height < pixel_rows * image_width + image_height && pixel_rows
        * image_width < columns * image_height + 2 * image_height
}

/// The lengths are short enough for single precision to hold them and to
/// keep a derived length next to the exact one: the image's sides are below
/// `2^24`, and the columns and pixel rows that are to be had are at most
/// `2^22`.
pub open spec fn in_precision(image_width: nat, image_height: nat, terminal: TerminalBounds) -> bool {
    &&& image_width < 0x100_0000
    &&& image_height < 0x100_0000
    &&& available(image_width, image_height, terminal).0 <= 0x40_0000
    &&& available(image_width, image_height, terminal).1 <= 0x40_0000
}

/// The fitted picture is never taller than what is to be had. Within
/// single precision's reach it is never wider either, and it keeps the
/// image's proportions.
pub proof fn lemma_fitted(image_width: nat, image_height: nat, terminal: TerminalBounds)
    requires
        0 < image_width <= u32::MAX,
        0 < image_height <= u32::MAX,
    ensures
        fitted(image_width, image_height, terminal).1 <= available(
            image_width,
            image_height,
            terminal,
        ).1,
        in_precision(image_width, image_height, terminal) ==> fitted(
            image_width,
            image_height,
            terminal,
        ).0 <= available(image_width, image_height, terminal).0,
        in_precision(image_width, image_height, terminal) ==> keeps_aspect(
            image_width,
            image_height,
            fitted(image_width, image_height, terminal).0,
            fitted(image_width, image_height, terminal).1,
        ),
{
    let (columns, pixel_rows) = available(image_width, image_height, terminal);
    let ratio = ratio_of(image_width, image_height);
    lemma_ratio_positive(image_width, image_height);
    if in_precision(image_width, image_height, terminal) {
        if rows_for(columns, image_width, image_height) > pixel_rows {
            lemma_crossing(columns, pixel_rows, ratio);
            lemma_multiplied_close(pixel_rows, image_width, image_height);
        } else {
            lemma_divided_close(columns, image_width, image_height);
        }
    }
}

impl SizeSpec {
    /// Neither a length nor the real size was asked for: the picture is
    /// fitted to the terminal.
    pub open spec fn is_open(self) -> bool {
        !self.real_size && self.width is None && self.height is None
    }
}

/// The grid for an image of `image_width` by `image_height` pixels.
///
/// In this order: the real size gives the image's width and half its height;
/// a width and a height are taken as columns and pixel rows; a width alone
/// gets the pixel rows that go with it; a height alone is taken as character
/// rows, not halved, and gets the columns that go with that many pixel rows;
/// with no wish at all the picture is fitted to the terminal.
pub open spec fn resolved(
    image_width: u32,
    image_height: u32,
    spec: SizeSpec,
    terminal: TerminalBounds,
) -> TargetGrid {
    let (iw, ih) = (image_width as nat, image_height as nat);
    if spec.real_size {
        TargetGrid { columns: image_width, rows: half_up(ih as int) as u32 }
    } else {
        match (spec.width, spec.height) {
            (Some(width), Some(height)) => TargetGrid {
                columns: width,
                rows: half_up(height as int) as u32,
            },
            (Some(width), None) => TargetGrid {
                columns: width,
                rows: half_up(rows_for(width as nat, iw, ih) as int) as u32,
            },
            (None, Some(height)) => TargetGrid {
                columns: columns_for(height as nat, iw, ih) as u32,
                rows: height,
            },
            (None, None) => {
                let (columns, pixel_rows) = fitted(iw, ih, terminal);
                TargetGrid { columns: columns as u32, rows: half_up(pixel_rows as int) as u32 }
            },
        }
    }
}

/// The number of character rows that `n` pixel rows fill: each character
/// holds two pixel rows, and an odd row at the end still needs a character.
pub fn ceil_half(n: u32) -> (rows: u32)
    ensures
        rows == half_up(n as int),
        rows == n / 2 + n % 2,
        n <= 2 * rows <= n + 1,
{
    n / 2 + n % 2
}

/// The pixel rows that go with `columns` columns of an image of
/// `image_width` by `image_height`.
pub fn pixel_rows_for(columns: u32, image_width: u32, image_height: u32) -> (out: u32)
    requires
        image_width > 0,
        image_height > 0,
    ensures
        out == rows_for(columns as nat, image_width as nat, image_height as nat),
{
    divide(columns, ratio(image_width, image_height))
}

/// The columns that go with `pixel_rows` pixel rows of an image of
/// `image_width` by `image_height`.
pub fn columns_for_rows(pixel_rows: u32, image_width: u32, image_height: u32) -> (out: u32)
    requires
        image_width > 0,
        image_height > 0,
    ensures
        out == columns_for(pixel_rows as nat, image_width as nat, image_height as nat),
{
    multiply(ratio(image_width, image_height), pixel_rows)
}

/// Fits an image to the terminal: the columns and pixel rows of the picture.
/// It is never taller than two pixel rows for each terminal row or than the
/// image. Within single precision's reach it is never wider than the
/// terminal or the image, and it keeps the image's proportions.
pub fn fit(image_width: u32, image_height: u32, terminal: TerminalBounds) -> (out: (u32, u32))
    requires
        image_width > 0,
        image_height > 0,
    ensures
        (out.0 as nat, out.1 as nat) == fitted(image_width as nat, image_height as nat, terminal),
        out.1 <= 2 * terminal.rows,
        out.1 <= image_height,
        in_precision(image_width as nat, image_height as nat, terminal) ==> {
            &&& out.0 <= terminal.columns
            &&& out.0 <= image_width
            &&& keeps_aspect(image_width as nat, image_height as nat, out.0 as nat, out.1 as nat)
        },
{
    proof {
        lemma_fitted(image_width as nat, image_height as nat, terminal);
    }
    let columns: u32 = if terminal.columns < image_width {
        terminal.columns
    } else {
        image_width
    };
    let pixel_rows: u32 = if (terminal.rows as u64) * 2 < image_height as u64 {
        terminal.rows * 2
    } else {
        image_height
    };
    let rows_for_columns: u32 = pixel_rows_for(columns, image_width, image_height);
    if rows_for_columns > pixel_rows {
        (columns_for_rows(pixel_rows, image_width, image_height), pixel_rows)
    } else {
        (columns, rows_for_columns)
    }
}

/// Settles the grid for an image of `image_width` by `image_height` pixels.
///
/// Whatever else is asked for, the real size gives the image's own width and
/// half its height. With no wish at all the grid is no taller than the
/// terminal or half the image; within single precision's reach it is no
/// wider than the terminal or the image, and the pixel rows that it stands
/// for keep the image's proportions.
pub fn resolve(image_width: u32, image_height: u32, spec: SizeSpec, terminal: TerminalBounds) -> (grid:
    TargetGrid)
    requires
        image_width > 0,
        image_height > 0,
    ensures
        grid == resolved(image_width, image_height, spec, terminal),
        spec.real_size ==> grid.columns == image_width && grid.rows == half_up(
            image_height as int,
        ),
        spec.is_open() ==> grid.rows <= at_most(
            terminal.rows as int,
            half_up(image_height as int),
        ),
        spec.is_open() && in_precision(image_width as nat, image_height as nat, terminal) ==> {
            let pixel_rows = fitted(image_width as nat, image_height as nat, terminal).1;
            &&& grid.columns <= at_most(terminal.columns as int, image_width as int)
            &&& grid.rows == half_up(pixel_rows as int)
            &&& keeps_aspect(
                image_width as nat,
                image_height as nat,
                grid.columns as nat,
                pixel_rows,
            )
        },
{
    if spec.real_size {
        return TargetGrid { columns: image_width, rows: ceil_half(image_height) };
    }
    match (spec.width, spec.height) {
        (Some(width), Some(height)) => TargetGrid { columns: width, rows: ceil_half(height) },
        (Some(width), None) => TargetGrid {
            columns: width,
            rows: ceil_half(pixel_rows_for(width, image_width, image_height)),
        },
        (None, Some(height)) => TargetGrid {
            columns: columns_for_rows(height, image_width, image_height),
            rows: height,
        },
        (None, None) => {
            let (columns, pixel_rows) = fit(image_width, image_height, terminal);
            TargetGrid { columns, rows: ceil_half(pixel_rows) }
        },
    }
}

} // verus!
