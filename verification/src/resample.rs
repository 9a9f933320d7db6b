//! Brings a picture to the number of pixels that a grid shows.

use vstd::prelude::*;
use crate::pixels::{grid_of, narrow_all, DeepImage, Image, PixelGrid};
use crate::size::TargetGrid;

verus! {

/// How colours are interpolated when a picture changes its size.
#[derive(Clone, Copy, Debug, PartialEq, Eq, Structural)]
pub enum ResizeAlgorithm {
    /// Linear interpolation: the default, balanced between quality and speed.
    Smooth,
    /// The nearest sample: the fastest, and blocky.
    Nearest,
    /// A wide kernel: the slowest, the best for shrinking.
    HighQuality,
}

impl ResizeAlgorithm {
    /// The algorithm that two switches stand for: the nearest sample wins
    /// over the wide kernel, and with neither the default is taken.
    pub open spec fn selected(nearest: bool, high_quality: bool) -> ResizeAlgorithm {
        if nearest {
            ResizeAlgorithm::Nearest
        } else if high_quality {
            ResizeAlgorithm::HighQuality
        } else {
            ResizeAlgorithm::Smooth
        }
    }

    /// The algorithm interpolates with exact arithmetic alone, so that the
    /// same picture comes out wherever it runs. The wide kernel takes sines,
    /// whose last digits are the machine's.
    pub open spec fn is_reproducible(self) -> bool {
        !(self is HighQuality)
    }

    /// The longest side, in pixels, of a picture that the algorithm takes or
    /// makes.
    ///
    /// The interpolation places its samples in single precision and divides
    /// each weight by the sum of the weights in reach. The nearest sample
    /// always has one pixel in reach, of weight one. With linear weights
    /// the pixel nearest to a sample's place counts at least a half as long
    /// as that place falls within the picture, which it does up to `2^22`.
    /// The wide kernel has weights below nothing too, and their sum is
    /// known to stay away from nothing only as long as adding them up loses
    /// little: up to `2^18`.
    pub open spec fn longest_side(self) -> nat {
        match self {
            ResizeAlgorithm::Nearest => 0xffff_ffff,
            ResizeAlgorithm::Smooth => 0x40_0000,
            ResizeAlgorithm::HighQuality => 0x4_0000,
        }
    }

    /// The longest side that the algorithm takes or makes.
    pub fn max_length(self) -> (limit: u32)
        ensures
            limit == self.longest_side(),
    {
        match self {
            ResizeAlgorithm::Nearest => 0xffff_ffff,
            ResizeAlgorithm::Smooth => 0x40_0000,
            ResizeAlgorithm::HighQuality => 0x4_0000,
        }
    }

    /// Picks the algorithm once, from the two switches.
    pub fn select(nearest: bool, high_quality: bool) -> (algorithm: ResizeAlgorithm)
        ensures
            algorithm == Self::selected(nearest, high_quality),
    {
        if nearest {
            ResizeAlgorithm::Nearest
        } else if high_quality {
            ResizeAlgorithm::HighQuality
        } else {
            ResizeAlgorithm::Smooth
        }
    }
}

/// The picture is shown as it is: at its real size, or because it has
/// exactly the pixels of `target` already.
pub open spec fn keeps_pixels(image: PixelGrid, target: TargetGrid, real_size: bool) -> bool {
    real_size || (image.width == target.columns && image.height == 2 * target.rows)
}

/// None of the four lengths is longer than `limit`.
pub open spec fn in_range(
    source_width: int,
    source_height: int,
    columns: int,
    pixel_rows: int,
    limit: int,
) -> bool {
    &&& source_width <= limit
    &&& source_height <= limit
    &&& columns <= limit
    &&& pixel_rows <= limit
}

/// The buffers that hold a picture `source_width` wide while it is brought
/// to `columns` by `pixel_rows` can be addressed: the intermediate one, with
/// sixteen bytes for each pixel, and the result, with four.
pub open spec fn in_memory(source_width: int, columns: int, pixel_rows: int) -> bool {
    &&& 16 * (source_width * pixel_rows) <= isize::MAX
    &&& 4 * (columns * pixel_rows) <= isize::MAX
}

/// `image` can be brought to the pixels of `target` by `algorithm`: no side
/// of either is too long for it, and the buffers can be addressed.
pub open spec fn resizable(image: PixelGrid, target: TargetGrid, algorithm: ResizeAlgorithm) -> bool {
    &&& in_range(
        image.width as int,
        image.height as int,
        target.columns as int,
        2 * target.rows,
        algorithm.longest_side() as int,
    )
    &&& in_memory(image.width as int, target.columns as int, 2 * target.rows)
}

/// The bytes of the picture that `image::imageops::resize` makes of the
/// picture of `width` by `height` pixels in `bytes`, when it brings it to
/// `new_width` by `new_height` with a reproducible algorithm.
pub uninterp spec fn resized(
    bytes: Seq<u8>,
    width: int,
    height: int,
    new_width: int,
    new_height: int,
    algorithm: ResizeAlgorithm,
) -> Seq<u8>;

/// What `image` becomes on `target` with a reproducible algorithm.
pub open spec fn resampled(image: Image, target: TargetGrid, algorithm: ResizeAlgorithm) -> PixelGrid {
    grid_of(
        target.columns as nat,
        (2 * target.rows) as nat,
        resized(
            image.bytes(),
            image@.width as int,
            image@.height as int,
            target.columns as int,
            2 * target.rows,
            algorithm,
        ),
    )
}

/// `image::imageops::resize` on a picture of four bytes a pixel. Trusted: the
/// result holds four bytes for each of `new_width * new_height` pixels; with
/// a reproducible algorithm it is the same for the same picture, sizes and
/// algorithm; and the nearest sample of a picture that has pixels takes each
/// new pixel whole from one old pixel. What the colours are otherwise is the
/// outside crate's work, and nothing more is said of them.
///
/// The call is kept to sides of at most `algorithm.longest_side()`. The
/// outside function divides each weight by the sum of the weights in reach
/// and has no answer where that sum is nothing; on longer sides single
/// precision can put a sample a whole pixel off, and then the sum can be
/// nothing.
#[verifier::external_body]
fn resize_bytes(
    data: Vec<u8>,
    width: u32,
    height: u32,
    new_width: u32,
    new_height: u32,
    algorithm: ResizeAlgorithm,
) -> (out: Vec<u8>)
    requires
        data@.len() == 4 * (width * height),
        in_range(
            width as int,
            height as int,
            new_width as int,
            new_height as int,
            algorithm.longest_side() as int,
        ),
        in_memory(width as int, new_width as int, new_height as int),
    ensures
        out@.len() == 4 * (new_width * new_height),
        algorithm.is_reproducible() ==> out@ == resized(
            data@,
            width as int,
            height as int,
            new_width as int,
            new_height as int,
            algorithm,
        ),
        algorithm is Nearest && width > 0 && height > 0 ==> grid_of(
            new_width as nat,
            new_height as nat,
            out@,
        ).has_only_pixels_of(grid_of(width as nat, height as nat, data@)),
{
    let filter = match algorithm {
        ResizeAlgorithm::Smooth => image::imageops::FilterType::Triangle,
        ResizeAlgorithm::Nearest => image::imageops::FilterType::Nearest,
        ResizeAlgorithm::HighQuality => image::imageops::FilterType::Lanczos3,
    };
    let source = image::RgbaImage::from_raw(width, height, data).unwrap();
    image::imageops::resize(&source, new_width, new_height, filter).into_raw()
}

/// Whether `image` can be brought to the pixels of `target` by `algorithm`.
pub fn can_resize(image: &Image, target: TargetGrid, algorithm: ResizeAlgorithm) -> (ok: bool)
    ensures
        ok == resizable(image@, target, algorithm),
{
    let width: u32 = image.width();
    let height: u32 = image.height();
    let limit: u32 = algorithm.max_length();
    if width > limit || height > limit || target.columns > limit || target.rows > limit / 2 {
        return false;
    }
    let pixel_rows: u128 = 2 * (target.rows as u128);
    let bytes: u128 = (usize::MAX / 2) as u128;
    assert(width * (2 * target.rows) <= 0x1_0000_0000_0000_0000 && target.columns * (2
        * target.rows) <= 0x1_0000_0000_0000_0000) by (nonlinear_arith)
        requires
            width <= 0xffff_ffff,
            target.columns <= 0xffff_ffff,
            2 * target.rows <= 0xffff_ffff,
    ;
    16 * (width as u128 * pixel_rows) <= bytes && 4 * (target.columns as u128 * pixel_rows)
        <= bytes
}

/// The picture that is rendered on `target`: `image` itself where it is
/// shown as it is, otherwise a picture of exactly `target.columns` by
/// `2 * target.rows` pixels, interpolated from `image` by `algorithm`. The
/// algorithm has no say in the size of the result, and the nearest sample
/// makes no pixel that `image` does not have.
pub fn resample(image: Image, target: TargetGrid, algorithm: ResizeAlgorithm, real_size: bool) -> (out:
    Image)
    requires
        !keeps_pixels(image@, target, real_size) ==> resizable(image@, target, algorithm),
    ensures
        keeps_pixels(image@, target, real_size) ==> out@ == image@ && out.bytes() == image.bytes(),
        !keeps_pixels(image@, target, real_size) ==> {
            &&& out@.width == target.columns
            &&& out@.height == 2 * target.rows
            &&& algorithm.is_reproducible() ==> out@ == resampled(image, target, algorithm)
            &&& algorithm is Nearest && image@.width > 0 && image@.height > 0
                ==> out@.has_only_pixels_of(image@)
        },
{
    proof {
        image.lemma_view();
    }
    if real_size {
        return image;
    }
    if image.width() == target.columns && image.height() as u64 == 2 * (target.rows as u64) {
        return image;
    }
    let width: u32 = image.width();
    let height: u32 = image.height();
    let pixel_rows: u32 = target.rows * 2;
    let data: Vec<u8> = image.into_raw();
    let resized: Vec<u8> = resize_bytes(data, width, height, target.columns, pixel_rows, algorithm);
    Image::from_raw(target.columns, pixel_rows, resized).unwrap()
}

/// The buffers that hold a deep picture `source_width` wide while it is
/// brought to `columns` by `pixel_rows` can be addressed: the intermediate
/// one, with sixteen bytes for each pixel, and the result, with eight.
pub open spec fn in_memory_deep(source_width: int, columns: int, pixel_rows: int) -> bool {
    &&& 16 * (source_width * pixel_rows) <= isize::MAX
    &&& 8 * (columns * pixel_rows) <= isize::MAX
}

/// The deep picture `image` can be brought to the pixels of `target` by
/// `algorithm`.
pub open spec fn resizable_deep(
    image: PixelGrid,
    target: TargetGrid,
    algorithm: ResizeAlgorithm,
) -> bool {
    &&& in_range(
        image.width as int,
        image.height as int,
        target.columns as int,
        2 * target.rows,
        algorithm.longest_side() as int,
    )
    &&& in_memory_deep(image.width as int, target.columns as int, 2 * target.rows)
}

/// The samples of the picture that `image::imageops::resize` makes of the
/// deep picture of `width` by `height` pixels in `words`, when it brings it
/// to `new_width` by `new_height` with a reproducible algorithm.
pub uninterp spec fn resized_words(
    words: Seq<u16>,
    width: int,
    height: int,
    new_width: int,
    new_height: int,
    algorithm: ResizeAlgorithm,
) -> Seq<u16>;

/// What the deep picture `image` becomes on `target` with a reproducible
/// algorithm.
pub open spec fn resampled_deep(
    image: DeepImage,
    target: TargetGrid,
    algorithm: ResizeAlgorithm,
) -> PixelGrid {
    grid_of(
        target.columns as nat,
        (2 * target.rows) as nat,
        narrow_all(
            resized_words(
                image.words(),
                image@.width as int,
                image@.height as int,
                target.columns as int,
                2 * target.rows,
                algorithm,
            ),
        ),
    )
}

/// `image::imageops::resize` on a picture of four sixteen-bit samples a
/// pixel. Trusted, as for a picture of bytes: the result holds four samples
/// for each of `new_width * new_height` pixels; with a reproducible
/// algorithm it is the same for the same picture, sizes and algorithm; and
/// the nearest sample of a picture that has pixels takes each new pixel
/// whole from one old pixel. The call is kept to sides of at most
/// `algorithm.longest_side()`.
#[verifier::external_body]
fn resize_words(
    data: Vec<u16>,
    width: u32,
    height: u32,
    new_width: u32,
    new_height: u32,
    algorithm: ResizeAlgorithm,
) -> (out: Vec<u16>)
    requires
        data@.len() == 4 * (width * height),
        in_range(
            width as int,
            height as int,
            new_width as int,
            new_height as int,
            algorithm.longest_side() as int,
        ),
        in_memory_deep(width as int, new_width as int, new_height as int),
    ensures
        out@.len() == 4 * (new_width * new_height),
        algorithm.is_reproducible() ==> out@ == resized_words(
            data@,
            width as int,
            height as int,
            new_width as int,
            new_height as int,
            algorithm,
        ),
        algorithm is Nearest && width > 0 && height > 0 ==> grid_of(
            new_width as nat,
            new_height as nat,
            narrow_all(out@),
        ).has_only_pixels_of(grid_of(width as nat, height as nat, narrow_all(data@))),
{
    let filter = match algorithm {
        ResizeAlgorithm::Smooth => image::imageops::FilterType::Triangle,
        ResizeAlgorithm::Nearest => image::imageops::FilterType::Nearest,
        ResizeAlgorithm::HighQuality => image::imageops::FilterType::Lanczos3,
    };
    let source =
        image::ImageBuffer::<image::Rgba<u16>, Vec<u16>>::from_raw(width, height, data).unwrap();
    image::imageops::resize(&source, new_width, new_height, filter).into_raw()
}

/// Whether the deep picture `image` can be brought to the pixels of `target`
/// by `algorithm`.
pub fn can_resize_deep(image: &DeepImage, target: TargetGrid, algorithm: ResizeAlgorithm) -> (ok:
    bool)
    ensures
        ok == resizable_deep(image@, target, algorithm),
{
    let width: u32 = image.width();
    let height: u32 = image.height();
    let limit: u32 = algorithm.max_length();
    if width > limit || height > limit || target.columns > limit || target.rows > limit / 2 {
        return false;
    }
    let pixel_rows: u128 = 2 * (target.rows as u128);
    let bytes: u128 = (usize::MAX / 2) as u128;
    assert(width * (2 * target.rows) <= 0x1_0000_0000_0000_0000 && target.columns * (2
        * target.rows) <= 0x1_0000_0000_0000_0000) by (nonlinear_arith)
        requires
            width <= 0xffff_ffff,
            target.columns <= 0xffff_ffff,
            2 * target.rows <= 0xffff_ffff,
    ;
    16 * (width as u128 * pixel_rows) <= bytes && 8 * (target.columns as u128 * pixel_rows)
        <= bytes
}

/// The deep picture that is rendered on `target`: `image` itself where it is
/// shown as it is, otherwise a deep picture of exactly `target.columns` by
/// `2 * target.rows` pixels, interpolated from `image` by `algorithm` on
/// its sixteen-bit samples.
pub fn resample_deep(
    image: DeepImage,
    target: TargetGrid,
    algorithm: ResizeAlgorithm,
    real_size: bool,
) -> (out: DeepImage)
    requires
        !keeps_pixels(image@, target, real_size) ==> resizable_deep(image@, target, algorithm),
    ensures
        keeps_pixels(image@, target, real_size) ==> out@ == image@ && out.words() == image.words(),
        !keeps_pixels(image@, target, real_size) ==> {
            &&& out@.width == target.columns
            &&& out@.height == 2 * target.rows
            &&& algorithm.is_reproducible() ==> out@ == resampled_deep(image, target, algorithm)
            &&& algorithm is Nearest && image@.width > 0 && image@.height > 0
                ==> out@.has_only_pixels_of(image@)
        },
{
    proof {
        image.lemma_view();
    }
    if real_size {
        return image;
    }
    if image.width() == target.columns && image.height() as u64 == 2 * (target.rows as u64) {
        return image;
    }
    let width: u32 = image.width();
    let height: u32 = image.height();
    let pixel_rows: u32 = target.rows * 2;
    let data: Vec<u16> = image.into_raw();
    let resized: Vec<u16> = resize_words(data, width, height, target.columns, pixel_rows, algorithm);
    DeepImage::from_raw(target.columns, pixel_rows, resized).unwrap()
}

} // verus!
