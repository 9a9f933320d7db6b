//! Single-precision arithmetic, done on whole numbers.
//!
//! A single-precision number has 24 significant bits: it is a whole number
//! below `2^24` times a power of two. Here such a number is held as a whole
//! multiple of one fixed small power of two, and rounding to 24 bits is
//! rounding to a multiple of a unit: the unit is doubled until fewer than
//! `2^24` units make up the number, and the number of units is rounded to
//! the nearest whole number, a tie to the even one.

use vstd::prelude::*;

verus! {

/// `n / d` to the nearest whole number, a tie to the even one.
pub open spec fn nearest(n: nat, d: nat) -> nat {
    let q = n / d;
    let r = n % d;
    if 2 * r > d || (2 * r == d && q % 2 == 1) {
        q + 1
    } else {
        q
    }
}

/// How far `n` is from being made up of fewer than `2^24` units.
pub open spec fn excess(n: nat, scale: nat) -> nat {
    if n >= 0x100_0000 * scale {
        (n - 0x100_0000 * scale + 1) as nat
    } else {
        0
    }
}

/// `n / scale` units, rounded to 24 bits, in units of `unit`: as long as
/// `2^24` units or more make up the number, unit and scale are doubled.
pub open spec fn rounded_from(n: nat, scale: nat, unit: nat) -> nat
    decreases excess(n, scale),
{
    if scale == 0 {
        0
    } else if n >= 0x100_0000 * scale {
        rounded_from(n, 2 * scale, 2 * unit)
    } else {
        unit * nearest(n, scale)
    }
}

/// `n / d`, rounded to 24 bits. For a quotient below `2^23` this is the
/// nearest whole number, which single precision would hold more finely.
pub open spec fn rounded(n: nat, d: nat) -> nat {
    rounded_from(n, d, 1)
}

/// The single-precision number nearest to the whole number `x`.
pub open spec fn single_of(x: nat) -> nat {
    rounded(x, 1)
}

/// The single-precision quotient of the single-precision numbers nearest to
/// `width` and `height`, in units of `2^-55`. For lengths that a `u32`
/// carries the quotient is `2^-32` or more, of `2^23` units, so that it is
/// rounded to 24 bits as single precision rounds it.
pub open spec fn ratio_of(width: nat, height: nat) -> nat {
    rounded(single_of(width) * 0x80_0000_0000_0000, single_of(height))
}

/// The whole part of the single-precision quotient of `x`, rounded to single
/// precision, by `ratio`, which is in units of `2^-55`. The quotient is
/// taken in units of `2^-24`: what single precision holds more finely lies
/// below one half, and has no whole part either way.
pub open spec fn divided(x: nat, ratio: nat) -> nat {
    rounded(single_of(x) * 0x8000_0000_0000_0000_0000, ratio) / 0x100_0000
}

/// The whole part of the single-precision product of `ratio`, which is in
/// units of `2^-55`, and `y`, rounded to single precision. The product is
/// taken in units of `2^-24`, as the quotient is.
pub open spec fn multiplied(ratio: nat, y: nat) -> nat {
    rounded(ratio * single_of(y), 0x8000_0000) / 0x100_0000
}

/// `x`, or the largest `u32` where `x` is larger.
pub open spec fn held(x: nat) -> nat {
    if x > u32::MAX {
        u32::MAX as nat
    } else {
        x
    }
}

/// The nearest whole number is at most half a unit away.
pub proof fn lemma_nearest(n: nat, d: nat)
    requires
        d > 0,
    ensures
        2 * (nearest(n, d) * d) <= 2 * n + d,
        2 * n <= 2 * (nearest(n, d) * d) + d,
{
    let q = n / d;
    let r = n % d;
    assert(n == q * d + r && 0 <= r < d && (q + 1) * d == q * d + d) by (nonlinear_arith)
        requires
            d > 0,
            q == n / d,
            r == n % d,
    ;
}

/// Rounding to 24 bits moves a number by at most one part in `2^24`. Here
/// the number is `n / d`, of `2^23` units or more.
pub proof fn lemma_rounded_from(n: nat, scale: nat, unit: nat, d: nat)
    requires
        d > 0,
        unit > 0,
        scale == unit * d,
        n >= 0x80_0000 * scale,
    ensures
        0x100_0000 * (rounded_from(n, scale, unit) * d) <= 0x100_0001 * n,
        0xff_ffff * n <= 0x100_0000 * (rounded_from(n, scale, unit) * d),
    decreases excess(n, scale),
{
    assert(scale > 0) by (nonlinear_arith)
        requires
            d > 0,
            unit > 0,
            scale == unit * d,
    ;
    if n >= 0x100_0000 * scale {
        assert(2 * scale == (2 * unit) * d) by (nonlinear_arith)
            requires
                scale == unit * d,
        ;
        lemma_rounded_from(n, 2 * scale, 2 * unit, d);
    } else {
        let count = nearest(n, scale);
        lemma_nearest(n, scale);
        assert((unit * count) * d == count * scale) by (nonlinear_arith)
            requires
                scale == unit * d,
        ;
    }
}

/// Rounding `n / d` to 24 bits moves it by at most one part in `2^24`, where
/// it is `2^23` or more.
pub proof fn lemma_rounded(n: nat, d: nat)
    requires
        d > 0,
        n >= 0x80_0000 * d,
    ensures
        0x100_0000 * (rounded(n, d) * d) <= 0x100_0001 * n,
        0xff_ffff * n <= 0x100_0000 * (rounded(n, d) * d),
{
    lemma_rounded_from(n, d, 1, d);
}

/// Below `2^23` a quotient is rounded to the nearest whole number, and
/// stays below `2^23 + 1`.
pub proof fn lemma_rounded_small(n: nat, d: nat)
    requires
        d > 0,
        n < 0x80_0000 * d,
    ensures
        rounded(n, d) == nearest(n, d),
        rounded(n, d) <= 0x80_0000,
{
    lemma_nearest(n, d);
    let v = nearest(n, d);
    assert(v <= 0x80_0000) by (nonlinear_arith)
        requires
            2 * (v * d) <= 2 * n + d,
            n < 0x80_0000 * d,
            d > 0,
    ;
}

/// Whole numbers below `2^24` are single-precision numbers.
pub proof fn lemma_single_exact(x: nat)
    requires
        x < 0x100_0000,
    ensures
        single_of(x) == x,
{
}

/// A quotient of one or more is not rounded to nothing.
pub proof fn lemma_rounded_positive(n: nat, d: nat)
    requires
        d > 0,
        n >= d,
    ensures
        rounded(n, d) >= 1,
{
    if n >= 0x80_0000 * d {
        lemma_rounded(n, d);
        let v = rounded(n, d);
        assert(v >= 1) by (nonlinear_arith)
            requires
                0xff_ffff * n <= 0x100_0000 * (v * d),
                n >= d,
                d > 0,
        ;
    } else {
        lemma_rounded_small(n, d);
        lemma_nearest(n, d);
        let v = nearest(n, d);
        assert(v >= 1) by (nonlinear_arith)
            requires
                2 * n <= 2 * (v * d) + d,
                n >= d,
                d > 0,
        ;
    }
}

/// The ratio of two lengths of one or more is more than nothing.
pub proof fn lemma_ratio_positive(width: nat, height: nat)
    requires
        0 < width <= u32::MAX,
        0 < height <= u32::MAX,
    ensures
        ratio_of(width, height) >= 1,
{
    lemma_rounded_positive(width, 1);
    let h = single_of(height);
    if height >= 0x80_0000 {
        lemma_rounded(height, 1);
    } else {
        lemma_rounded_small(height, 1);
    }
    lemma_rounded_positive(height, 1);
    lemma_rounded_positive(single_of(width) * 0x80_0000_0000_0000, h);
}

/// Where `x` divided by the ratio comes out above `y`, the ratio times `y`
/// does not come out above `x`: rounding cannot carry both across.
pub proof fn lemma_crossing(x: nat, y: nat, ratio: nat)
    requires
        ratio > 0,
        x <= 0x40_0000,
        y < 0x100_0000,
        held(divided(x, ratio)) > y,
    ensures
        held(multiplied(ratio, y)) <= x,
{
    lemma_single_exact(x);
    lemma_single_exact(y);
    let quotient = rounded(x * 0x8000_0000_0000_0000_0000, ratio);
    let product = rounded(ratio * y, 0x8000_0000);
    if multiplied(ratio, y) > x {
        if x * 0x8000_0000_0000_0000_0000 < 0x80_0000 * ratio {
            lemma_rounded_small(x * 0x8000_0000_0000_0000_0000, ratio);
        } else {
            lemma_rounded(x * 0x8000_0000_0000_0000_0000, ratio);
        }
        if ratio * y < 0x80_0000 * 0x8000_0000 {
            lemma_rounded_small(ratio * y, 0x8000_0000);
        } else {
            lemma_rounded(ratio * y, 0x8000_0000);
        }
        let above = ratio * y;
        assert(((y + 1) * 0x100_0000) * ratio <= quotient * ratio && ((y + 1) * 0x100_0000)
            * ratio == 0x100_0000 * (above + ratio)) by (nonlinear_arith)
            requires
                quotient >= (y + 1) * 0x100_0000,
                above == ratio * y,
        ;
        assert(false);
    }
}

/// Products of three numbers can be regrouped, and a product keeps the
/// order of its factors.
pub proof fn lemma_products(a: nat, b: nat, c: nat)
    ensures
        (a * b) * c == a * (b * c),
        (a * b) * c == (a * c) * b,
        a <= b ==> a * c <= b * c,
        a < b && c > 0 ==> a * c < b * c,
        (a + 1) * c == a * c + c,
{
    assert((a * b) * c == a * (b * c) && (a * b) * c == (a * c) * b && (a + 1) * c == a * c + c)
        by (nonlinear_arith);
    assert(a < b && c > 0 ==> a * c < b * c) by (nonlinear_arith);
}

/// The pixel rows that go with `x` columns are the exact ones, cut to a
/// whole number, or a whole number next to that: with `p` rows,
/// `(p - 1) * width < x * height < (p + 2) * width`.
pub proof fn lemma_divided_close(x: nat, width: nat, height: nat)
    requires
        0 < width < 0x100_0000,
        0 < height < 0x100_0000,
        x < 0x100_0000,
        divided(x, ratio_of(width, height)) <= 0x40_0000,
    ensures
        divided(x, ratio_of(width, height)) * width < x * height + width,
        x * height < divided(x, ratio_of(width, height)) * width + 2 * width,
{
    lemma_single_exact(x);
    lemma_single_exact(width);
    lemma_single_exact(height);
    lemma_ratio_positive(width, height);
    let r = ratio_of(width, height);
    let p = divided(x, r);
    let n = x * 0x8000_0000_0000_0000_0000;
    let v = rounded(n, r);
    let t = r * height;
    let pw = p * width;
    lemma_rounded(width * 0x80_0000_0000_0000, height);
    lemma_products(p, 0x40_0000, width);
    if n < 0x80_0000 * r {
        lemma_rounded_small(n, r);
        lemma_products(x * 0x100_0000_0000_0000, r, height);
        lemma_products(x, 0x100_0000_0000_0000, height);
    } else {
        lemma_rounded(n, r);
        let u = v * r;
        let pt = p * t;
        // from the rows to the rounded quotient
        lemma_products(p * 0x100_0000, v, r);
        lemma_products(v, (p + 1) * 0x100_0000, r);
        lemma_products(p * 0x100_0000, r, height);
        lemma_products(p, 0x100_0000, t);
        lemma_products((p * 0x100_0000) * r, u, height);
        lemma_products(u, ((p + 1) * 0x100_0000) * r, height);
        lemma_products((p + 1) * 0x100_0000, r, height);
        lemma_products(p + 1, 0x100_0000, t);
        // from the rounded quotient to the columns
        lemma_products(0x100_0000 * u, 0x100_0001 * n, height);
        lemma_products(0xff_ffff * n, 0x100_0000 * u, height);
        lemma_products(0x100_0000, u, height);
        lemma_products(0x100_0001, n, height);
        lemma_products(0xff_ffff, n, height);
        lemma_products(x, 0x8000_0000_0000_0000_0000, height);
        // from the ratio to the image
        lemma_products(0xff_ffff * (width * 0x80_0000_0000_0000), 0x100_0000 * t, p);
        lemma_products(0x100_0000 * t, 0x100_0001 * (width * 0x80_0000_0000_0000), p);
        lemma_products(0xff_ffff, width * 0x80_0000_0000_0000, p);
        lemma_products(0x100_0001, width * 0x80_0000_0000_0000, p);
        assert(t * p == pt && (width * 0x80_0000_0000_0000) * p == pw * 0x80_0000_0000_0000)
            by (nonlinear_arith)
            requires
                pt == p * t,
                pw == p * width,
        ;
    }
}

/// The columns that go with `y` pixel rows are the exact ones, cut to a
/// whole number, or a whole number next to that: with `c` columns,
/// `(c - 1) * height < y * width < (c + 2) * height`.
pub proof fn lemma_multiplied_close(y: nat, width: nat, height: nat)
    requires
        0 < width < 0x100_0000,
        0 < height < 0x100_0000,
        y < 0x100_0000,
        multiplied(ratio_of(width, height), y) <= 0x40_0000,
    ensures
        multiplied(ratio_of(width, height), y) * height < y * width + height,
        y * width < multiplied(ratio_of(width, height), y) * height + 2 * height,
{
    lemma_single_exact(y);
    lemma_single_exact(width);
    lemma_single_exact(height);
    let r = ratio_of(width, height);
    let c = multiplied(r, y);
    let n = r * y;
    let t = r * height;
    let yw = y * width;
    let nh = n * height;
    lemma_rounded(width * 0x80_0000_0000_0000, height);
    lemma_products(c, 0x40_0000, height);
    // from the ratio to the image
    lemma_products(0xff_ffff * (width * 0x80_0000_0000_0000), 0x100_0000 * t, y);
    lemma_products(0x100_0000 * t, 0x100_0001 * (width * 0x80_0000_0000_0000), y);
    lemma_products(0x100_0000, t, y);
    lemma_products(0xff_ffff, width * 0x80_0000_0000_0000, y);
    lemma_products(0x100_0001, width * 0x80_0000_0000_0000, y);
    assert(t * y == nh && (width * 0x80_0000_0000_0000) * y == yw * 0x80_0000_0000_0000)
        by (nonlinear_arith)
        requires
            t == r * height,
            nh == (r * y) * height,
            yw == y * width,
    ;
    if n < 0x80_0000 * 0x8000_0000 {
        lemma_rounded_small(n, 0x8000_0000);
        lemma_products(n, 0x80_0000 * 0x8000_0000, height);
        assert(nh < (0x80_0000 * 0x8000_0000) * height);
    } else {
        lemma_rounded(n, 0x8000_0000);
        // from the columns to the product
        lemma_products(c * 0x8000_0000_0000_0000_0000, 0x100_0001 * n, height);
        lemma_products(0xff_ffff * n, (c + 1) * 0x8000_0000_0000_0000_0000, height);
        lemma_products(c, 0x8000_0000_0000_0000_0000, height);
        lemma_products(c + 1, 0x8000_0000_0000_0000_0000, height);
        lemma_products(0x100_0001, n, height);
        lemma_products(0xff_ffff, n, height);
    }
}

/// `n / d`, rounded to 24 bits.
pub fn round(n: u128, d: u128) -> (out: u128)
    requires
        0 < d <= 0x10_0000_0000_0000_0000_0000_0000,
        n <= 0x4000_0000_0000_0000_0000_0000_0000_0000,
    ensures
        out == rounded(n as nat, d as nat),
        out <= 2 * n + 1,
        n >= d ==> out >= 1,
{
    let mut scale: u128 = d;
    let mut unit: u128 = 1;
    while n >= 0x100_0000 * scale
        invariant
            0 < unit <= scale,
            0x100_0000 * scale <= 2 * n || scale == d,
            0x100_0000 * unit <= 2 * n || unit == 1,
            unit == 1 ==> scale == d,
            unit > 1 ==> 0x80_0000 * scale <= n,
            0 < d <= 0x10_0000_0000_0000_0000_0000_0000,
            n <= 0x4000_0000_0000_0000_0000_0000_0000_0000,
            rounded(n as nat, d as nat) == rounded_from(n as nat, scale as nat, unit as nat),
        decreases excess(n as nat, scale as nat),
    {
        scale = 2 * scale;
        unit = 2 * unit;
    }
    let q: u128 = n / scale;
    let r: u128 = n % scale;
    let up: bool = 2 * r > scale || (2 * r == scale && q % 2 == 1);
    let count: u128 = if up {
        q + 1
    } else {
        q
    };
    assert(q < 0x100_0000 && (n >= d ==> q >= 1) && unit * q <= n) by (nonlinear_arith)
        requires
            q == n / scale,
            n < 0x100_0000 * scale,
            0 < unit <= scale,
            unit == 1 ==> scale == d,
            unit > 1 ==> 0x80_0000 * scale <= n,
    ;
    assert(unit * count <= 2 * n + 1 && unit * count >= count) by (nonlinear_arith)
        requires
            unit * q <= n,
            count <= q + 1,
            0x100_0000 * unit <= 2 * n || unit == 1,
            q < 0x100_0000,
            unit >= 1,
    ;
    unit * count
}

/// The single-precision number nearest to `x`.
pub fn single(x: u32) -> (out: u128)
    ensures
        out == single_of(x as nat),
        out <= 0x2_0000_0001,
        x >= 1 ==> out >= 1,
{
    round(x as u128, 1)
}

/// The aspect ratio of `width` by `height` in single precision, in units of
/// `2^-55`.
pub fn ratio(width: u32, height: u32) -> (out: u128)
    requires
        width > 0,
        height > 0,
    ensures
        out == ratio_of(width as nat, height as nat),
        0 < out <= 0x400_0000_0000_0000_0000_0000,
{
    let w: u128 = single(width);
    let h: u128 = single(height);
    round(w * 0x80_0000_0000_0000, h)
}

/// The whole part of `x / ratio` in single precision, or the largest `u32`
/// where it is larger.
pub fn divide(x: u32, ratio: u128) -> (out: u32)
    requires
        0 < ratio <= 0x400_0000_0000_0000_0000_0000,
    ensures
        out == held(divided(x as nat, ratio as nat)),
{
    let whole: u128 = round(single(x) * 0x8000_0000_0000_0000_0000, ratio) / 0x100_0000;
    if whole > u32::MAX as u128 {
        u32::MAX
    } else {
        whole as u32
    }
}

/// The whole part of `ratio * y` in single precision, or the largest `u32`
/// where it is larger.
pub fn multiply(ratio: u128, y: u32) -> (out: u32)
    requires
        0 < ratio <= 0x400_0000_0000_0000_0000_0000,
    ensures
        out == held(multiplied(ratio as nat, y as nat)),
{
    let factor: u128 = single(y);
    assert(ratio * factor <= 0x4000_0000_0000_0000_0000_0000_0000_0000) by (nonlinear_arith)
        requires
            ratio <= 0x400_0000_0000_0000_0000_0000,
            factor <= 0x2_0000_0001,
    ;
    let whole: u128 = round(ratio * factor, 0x8000_0000) / 0x100_0000;
    if whole > u32::MAX as u128 {
        u32::MAX
    } else {
        whole as u32
    }
}

} // verus!
