//! From an image to its text in one step: settle the grid, bring the picture
//! to it, write it.

use vstd::prelude::*;
use crate::pixels::{DeepImage, Image, PixelGrid};
use crate::render::{covers, render, rendered};
use crate::resample::{
    can_resize, can_resize_deep, keeps_pixels, resample, resample_deep, resampled,
    resampled_deep, resizable, resizable_deep, ResizeAlgorithm,
};
use crate::size::{resolve, resolved, SizeSpec, TargetGrid, TerminalBounds};

verus! {

/// `out` is what drawing `image` on `target` gives: the text of `image`
/// itself where it is shown as it is; the text of a picture of exactly
/// `target.columns` by `2 * target.rows` pixels where `image` can be brought
/// to that size, of the resampled picture where the algorithm is
/// reproducible, and with the nearest sample of a picture made of the
/// image's own pixels; nothing where it cannot be brought to that size.
pub open spec fn is_drawing(
    out: Option<String>,
    image: Image,
    target: TargetGrid,
    algorithm: ResizeAlgorithm,
    real_size: bool,
) -> bool {
    if keeps_pixels(image@, target, real_size) {
        out matches Some(text) && text@ == rendered(image@, target)
    } else if resizable(image@, target, algorithm) {
        out matches Some(text) && exists|shown: PixelGrid|
            {
                &&& shown.wf()
                &&& shown.width == target.columns
                &&& shown.height == 2 * target.rows
                &&& algorithm.is_reproducible() ==> shown == resampled(image, target, algorithm)
                &&& algorithm is Nearest && image@.width > 0 && image@.height > 0
                    ==> shown.has_only_pixels_of(image@)
                &&& text@ == #[trigger] rendered(shown, target)
            }
    } else {
        out is None
    }
}

/// Draws `image` on `target`: resamples it unless it is shown as it is, and
/// renders the result.
pub fn draw_on(image: Image, target: TargetGrid, algorithm: ResizeAlgorithm, real_size: bool) -> (out:
    Option<String>)
    requires
        real_size ==> covers(image@, target),
    ensures
        is_drawing(out, image, target, algorithm, real_size),
{
    let kept: bool = real_size || (image.width() == target.columns && image.height() as u64 == 2
        * (target.rows as u64));
    if !kept && !can_resize(&image, target, algorithm) {
        return None;
    }
    let shown: Image = resample(image, target, algorithm, real_size);
    proof {
        shown.lemma_view();
    }
    let text: String = render(&shown, target);
    Some(text)
}

/// Draws `image` as `spec` asks for it on `terminal`: on the grid that
/// `resolve` settles for the image's width and height.
pub fn draw(image: Image, spec: SizeSpec, terminal: TerminalBounds, algorithm: ResizeAlgorithm) -> (out:
    Option<String>)
    requires
        image@.width > 0,
        image@.height > 0,
    ensures
        is_drawing(
            out,
            image,
            resolved(image@.width as u32, image@.height as u32, spec, terminal),
            algorithm,
            spec.real_size,
        ),
{
    let target: TargetGrid = resolve(image.width(), image.height(), spec, terminal);
    draw_on(image, target, algorithm, spec.real_size)
}

/// `out` is what drawing the deep picture `image` on `target` gives: as for
/// a picture of bytes, but that the picture is resampled on its sixteen-bit
/// samples, and narrowed to bytes after that.
pub open spec fn is_deep_drawing(
    out: Option<String>,
    image: DeepImage,
    target: TargetGrid,
    algorithm: ResizeAlgorithm,
    real_size: bool,
) -> bool {
    if keeps_pixels(image@, target, real_size) {
        out matches Some(text) && text@ == rendered(image@, target)
    } else if resizable_deep(image@, target, algorithm) {
        out matches Some(text) && exists|shown: PixelGrid|
            {
                &&& shown.wf()
                &&& shown.width == target.columns
                &&& shown.height == 2 * target.rows
                &&& algorithm.is_reproducible() ==> shown == resampled_deep(
                    image,
                    target,
                    algorithm,
                )
                &&& algorithm is Nearest && image@.width > 0 && image@.height > 0
                    ==> shown.has_only_pixels_of(image@)
                &&& text@ == #[trigger] rendered(shown, target)
            }
    } else {
        out is None
    }
}

/// Draws the deep picture `image` on `target`: resamples it unless it is
/// shown as it is, narrows the result to bytes, and renders it.
pub fn draw_deep_on(
    image: DeepImage,
    target: TargetGrid,
    algorithm: ResizeAlgorithm,
    real_size: bool,
) -> (out: Option<String>)
    requires
        real_size ==> covers(image@, target),
    ensures
        is_deep_drawing(out, image, target, algorithm, real_size),
{
    let kept: bool = real_size || (image.width() == target.columns && image.height() as u64 == 2
        * (target.rows as u64));
    if !kept && !can_resize_deep(&image, target, algorithm) {
        return None;
    }
    let shown: Image = resample_deep(image, target, algorithm, real_size).to_image();
    proof {
        shown.lemma_view();
    }
    let text: String = render(&shown, target);
    Some(text)
}

/// Draws the deep picture `image` as `spec` asks for it on `terminal`: on
/// the grid that `resolve` settles for the image's width and height.
pub fn draw_deep(
    image: DeepImage,
    spec: SizeSpec,
    terminal: TerminalBounds,
    algorithm: ResizeAlgorithm,
) -> (out: Option<String>)
    requires
        image@.width > 0,
        image@.height > 0,
    ensures
        is_deep_drawing(
            out,
            image,
            resolved(image@.width as u32, image@.height as u32, spec, terminal),
            algorithm,
            spec.real_size,
        ),
{
    let target: TargetGrid = resolve(image.width(), image.height(), spec, terminal);
    draw_deep_on(image, target, algorithm, spec.real_size)
}

} // verus!
