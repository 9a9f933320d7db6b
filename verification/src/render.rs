//! Writes a picture as text: one glyph for two pixels, one above the other.
//!
//! A cell sets the background to the upper pixel's colour and the foreground
//! to the lower pixel's, draws the lower half block, and resets the colours.

use vstd::prelude::*;
use crate::pixels::{Image, PixelGrid, Rgba};
use crate::size::TargetGrid;

verus! {

/// The character for the digit `d`.
pub open spec fn digit(d: int) -> char
    recommends
        0 <= d < 10,
{
    "0123456789"@[d]
}

/// `n` in decimal, with no leading zero.
pub open spec fn decimal(n: nat) -> Seq<char>
    decreases n,
{
    if n < 10 {
        seq![digit(n as int)]
    } else {
        decimal(n / 10).push(digit((n % 10) as int))
    }
}

/// The text of one cell: the upper pixel's colour as background, the lower
/// pixel's as foreground, the lower half block, and the reset.
pub open spec fn cell(upper: Rgba, lower: Rgba) -> Seq<char> {
    "\x1b[48;2;"@ + decimal(upper.r as nat) + ";"@ + decimal(upper.g as nat) + ";"@ + decimal(
        upper.b as nat,
    ) + ";38;2;"@ + decimal(lower.r as nat) + ";"@ + decimal(lower.g as nat) + ";"@ + decimal(
        lower.b as nat,
    ) + "m\u{2584}\x1b[0m"@
}

/// What stands below the last pixel row: black, and fully transparent.
pub open spec fn transparent_black() -> Rgba {
    Rgba { r: 0, g: 0, b: 0, a: 0 }
}

/// The upper pixel of the cell in `column` of character row `row`.
pub open spec fn upper_pixel(image: PixelGrid, column: int, row: int) -> Rgba {
    image.pixel(column, 2 * row)
}

/// The lower pixel of the cell in `column` of character row `row`:
/// transparent black where the picture has no pixel row left for it.
pub open spec fn lower_pixel(image: PixelGrid, column: int, row: int) -> Rgba {
    if 2 * row + 1 < image.height {
        image.pixel(column, 2 * row + 1)
    } else {
        transparent_black()
    }
}

/// The first `n` cells of character row `row`.
pub open spec fn cells(image: PixelGrid, row: int, n: nat) -> Seq<char>
    decreases n,
{
    if n == 0 {
        Seq::empty()
    } else {
        cells(image, row, (n - 1) as nat) + cell(
            upper_pixel(image, n - 1, row),
            lower_pixel(image, n - 1, row),
        )
    }
}

/// Character row `row`, `columns` cells wide, with its line break.
pub open spec fn line(image: PixelGrid, row: int, columns: nat) -> Seq<char> {
    cells(image, row, columns) + "\n"@
}

/// The first `n` character rows, each `columns` cells wide.
pub open spec fn lines(image: PixelGrid, columns: nat, n: nat) -> Seq<char>
    decreases n,
{
    if n == 0 {
        Seq::empty()
    } else {
        lines(image, columns, (n - 1) as nat) + line(image, n - 1, columns)
    }
}

/// The text of `image` on `target`.
pub open spec fn rendered(image: PixelGrid, target: TargetGrid) -> Seq<char> {
    lines(image, target.columns as nat, target.rows as nat)
}

/// `image` has a pixel for the upper half of every cell of `target`.
pub open spec fn covers(image: PixelGrid, target: TargetGrid) -> bool {
    target.columns > 0 && target.rows > 0 ==> target.columns <= image.width && 2 * (target.rows
        - 1) < image.height
}

/// Appends the character for the digit `d`.
fn push_digit(out: &mut String, d: u8)
    requires
        d < 10,
    ensures
        final(out)@ == old(out)@.push(digit(d as int)),
{
    let digits: &str = "0123456789";
    proof {
        reveal_strlit("0123456789");
    }
    let one: &str = digits.substring_ascii(d as usize, d as usize + 1);
    out.append(one);
}

/// Appends `value` in decimal.
fn push_decimal(out: &mut String, value: u8)
    ensures
        final(out)@ == old(out)@ + decimal(value as nat),
{
    proof {
        reveal_with_fuel(decimal, 3);
    }
    if value >= 100 {
        push_digit(out, value / 100);
    }
    if value >= 10 {
        push_digit(out, (value / 10) % 10);
    }
    push_digit(out, value % 10);
}

/// Appends the text of one cell.
pub fn push_cell(out: &mut String, upper: Rgba, lower: Rgba)
    ensures
        final(out)@ == old(out)@ + cell(upper, lower),
{
    out.append("\x1b[48;2;");
    push_decimal(out, upper.r);
    out.append(";");
    push_decimal(out, upper.g);
    out.append(";");
    push_decimal(out, upper.b);
    out.append(";38;2;");
    push_decimal(out, lower.r);
    out.append(";");
    push_decimal(out, lower.g);
    out.append(";");
    push_decimal(out, lower.b);
    out.append("m\u{2584}\x1b[0m");
}

/// Writes `image` on `target`: for each character row a line of
/// `target.columns` cells, the cell in column `c` of row `r` made of the
/// pixels at `(c, 2 * r)` and `(c, 2 * r + 1)`.
pub fn render(image: &Image, target: TargetGrid) -> (out: String)
    requires
        covers(image@, target),
    ensures
        out@ == rendered(image@, target),
{
    let mut out: String = String::new();
    let height: u32 = image.height();
    let mut row: u32 = 0;
    while row < target.rows
        invariant
            row <= target.rows,
            height == image@.height,
            covers(image@, target),
            out@ == lines(image@, target.columns as nat, row as nat),
        decreases target.rows - row,
    {
        let ghost above = out@;
        let mut column: u32 = 0;
        while column < target.columns
            invariant
                column <= target.columns,
                row < target.rows,
                height == image@.height,
                covers(image@, target),
                out@ == above + cells(image@, row as int, column as nat),
            decreases target.columns - column,
        {
            let upper: Rgba = image.get_pixel(column, row * 2);
            let lower: Rgba = if row * 2 + 1 < height {
                image.get_pixel(column, row * 2 + 1)
            } else {
                Rgba { r: 0, g: 0, b: 0, a: 0 }
            };
            push_cell(&mut out, upper, lower);
            column = column + 1;
        }
        out.append("\n");
        row = row + 1;
    }
    out
}

} // verus!
